use vstd::prelude::*;
use vstd::arithmetic::div_mod::{lemma_div_by_multiple, lemma_fundamental_div_mod_converse};
use crate::error::SetupError;

verus! {

/// The image formats the scene loader accepts.
#[derive(Clone, Copy, Debug, PartialEq, Eq, Structural)]
pub enum ImgFormat {
    Jpeg,
    Png,
}

/// An immutable RGBA pixel buffer, ready for a one-time GPU upload. Rows are
/// stored bottom-up, matching the GPU's texture convention.
#[derive(Debug)]
pub struct Texture {
    pub width: u32,
    pub height: u32,
    pub pixels: Vec<u8>,
}

impl Texture {
    /// Four bytes (RGBA) for each of width * height pixels.
    pub open spec fn wf(self) -> bool {
        self.pixels@.len() == 4 * (self.width as int) * (self.height as int)
    }
}

/// The rows of `p` in reverse order: byte `n` of the result comes from the
/// same column of the mirror-image row. `p` holds `h` rows of `row_bytes`
/// bytes each.
pub open spec fn flipped_rows(p: Seq<u8>, row_bytes: int, h: int) -> Seq<u8>
    recommends
        p.len() == row_bytes * h,
{
    Seq::new(p.len(), |n: int| p[row_bytes * (h - 1 - n / row_bytes) + n % row_bytes])
}

/// Reverses the row order of a pixel buffer of `h` rows, each `row_bytes`
/// bytes long.
pub fn flip_rows(p: &Vec<u8>, row_bytes: usize, h: usize) -> (r: Vec<u8>)
    requires
        p@.len() == (row_bytes as int) * (h as int),
    ensures
        r@ == flipped_rows(p@, row_bytes as int, h as int),
{
    let ghost target = flipped_rows(p@, row_bytes as int, h as int);
    let mut out: Vec<u8> = Vec::new();
    let mut j: usize = 0;
    while j < h
        invariant
            j <= h,
            p@.len() == (row_bytes as int) * (h as int),
            out@.len() == (j as int) * (row_bytes as int),
            target == flipped_rows(p@, row_bytes as int, h as int),
            forall|n: int| 0 <= n < out@.len() ==> out@[n] == target[n],
        decreases h - j,
    {
        let mut b: usize = 0;
        while b < row_bytes
            invariant
                j < h,
                b <= row_bytes,
                p@.len() == (row_bytes as int) * (h as int),
                out@.len() == (j as int) * (row_bytes as int) + (b as int),
                target == flipped_rows(p@, row_bytes as int, h as int),
                forall|n: int| 0 <= n < out@.len() ==> out@[n] == target[n],
            decreases row_bytes - b,
        {
            proof {
                assert(p@.len() <= usize::MAX) by {
                    assert(p.len() == p@.len());
                }
                assert((row_bytes as int) * ((h - 1 - j) as int) + (b as int)
                    < (row_bytes as int) * (h as int)
                    && (j as int) * (row_bytes as int) + (b as int)
                        < (row_bytes as int) * (h as int)
                    && 0 <= (row_bytes as int) * ((h - 1 - j) as int)) by (nonlinear_arith)
                    requires
                        0 <= b < row_bytes,
                        0 <= j < h,
                ;
            }
            let src: usize = row_bytes * (h - 1 - j) + b;
            proof {
                let n = (j as int) * (row_bytes as int) + (b as int);
                lemma_fundamental_div_mod_converse(n, row_bytes as int, j as int, b as int);
                assert(target[n] == p@[src as int]);
            }
            out.push(p[src]);
            b += 1;
        }
        proof {
            assert(((j + 1) as int) * (row_bytes as int)
                == (j as int) * (row_bytes as int) + (row_bytes as int)) by (nonlinear_arith);
        }
        j += 1;
    }
    proof {
        assert((h as int) * (row_bytes as int) == (row_bytes as int) * (h as int))
            by (nonlinear_arith);
        assert(out@.len() == target.len());
        assert(out@ =~= target);
    }
    out
}

impl Texture {
    /// Wraps an RGBA pixel buffer of the given size. Fails exactly when the
    /// buffer length does not match four bytes per pixel.
    pub fn from_rgba_buffer(pixels: Vec<u8>, width: u32, height: u32) -> (r: Result<Texture, SetupError>)
        ensures
            r.is_ok() <==> pixels@.len() == 4 * (width as int) * (height as int),
            (r matches Ok(t) ==> t.width == width && t.height == height && t.pixels@ == pixels@
                && t.wf()),
            (r matches Err(e) ==> e == SetupError::PixelCountMismatch),
    {
        proof {
            assert((4 * (width as int)) * (height as int) <= 0x4_0000_0000 * 0xffff_ffff)
                by (nonlinear_arith)
                requires
                    width <= 0xffff_ffff,
                    height <= 0xffff_ffff,
            ;
            assert(0 <= (4 * (width as int)) * (height as int)) by (nonlinear_arith)
                requires
                    width >= 0,
                    height >= 0,
            ;
        }
        let expected: u128 = (4u128 * (width as u128)) * (height as u128);
        if pixels.len() as u128 == expected {
            proof {
                assert(pixels@.len() == 4 * (width as int) * (height as int)) by (nonlinear_arith)
                    requires
                        pixels@.len() == (4 * (width as int)) * (height as int),
                ;
            }
            Ok(Texture { width, height, pixels })
        } else {
            proof {
                assert(4 * (width as int) * (height as int) == (4 * (width as int)) * (height as int))
                    by (nonlinear_arith);
            }
            Err(SetupError::PixelCountMismatch)
        }
    }
}

/// What the image decoder returns for a byte buffer and a format tag: whether
/// the bytes decode at all, and if so the RGBA pixels (top-down rows) and the
/// size in pixels.
pub struct DecodedImage {
    pub ok: bool,
    pub width: int,
    pub height: int,
    pub pixels: Seq<u8>,
}

pub uninterp spec fn decoded_rgba(bytes: Seq<u8>, format: ImgFormat) -> DecodedImage;

/// Relies on image::load and DynamicImage::to_rgba8: decoding is a pure
/// function of the bytes and the format tag, it fails exactly on malformed
/// input, and an RGBA8 buffer holds exactly 4 bytes per pixel (an
/// ImageBuffer's container length is width * height * channel count).
#[verifier::external_body]
fn decode_rgba(bytes: &Vec<u8>, format: ImgFormat) -> (r: Result<(Vec<u8>, u32, u32), SetupError>)
    ensures
        r.is_ok() == decoded_rgba(bytes@, format).ok,
        (r matches Ok(d) ==> {
            let m = decoded_rgba(bytes@, format);
            d.0@ == m.pixels && d.1 == m.width && d.2 == m.height
                && d.0@.len() == 4 * m.width * m.height
        }),
        (r matches Err(e) ==> e == SetupError::DecodeFailed),
{
    let fmt = match format {
        ImgFormat::Jpeg => image::ImageFormat::Jpeg,
        ImgFormat::Png => image::ImageFormat::Png,
    };
    match image::load(std::io::Cursor::new(bytes.as_slice()), fmt) {
        Ok(img) => {
            let rgba = img.to_rgba8();
            let width = rgba.width();
            let height = rgba.height();
            Ok((rgba.into_raw(), width, height))
        },
        Err(_) => Err(SetupError::DecodeFailed),
    }
}

impl Texture {
    /// Decodes an image from raw file bytes and flips its rows bottom-up.
    /// Fails exactly when the bytes do not decode in the given format.
    pub fn from_bytes(bytes: &Vec<u8>, format: ImgFormat) -> (r: Result<Texture, SetupError>)
        ensures
            r.is_ok() == decoded_rgba(bytes@, format).ok,
            (r matches Ok(t) ==> {
                let m = decoded_rgba(bytes@, format);
                t.width == m.width && t.height == m.height && t.wf()
                    && t.pixels@ == flipped_rows(m.pixels, 4 * m.width, m.height)
            }),
            (r matches Err(e) ==> e == SetupError::DecodeFailed),
    {
        match decode_rgba(bytes, format) {
            Err(e) => Err(e),
            Ok((pixels, width, height)) => {
                proof {
                    assert((4 * (width as int)) * (height as int)
                        == 4 * (width as int) * (height as int)) by (nonlinear_arith);
                }
                if height == 0 {
                    proof {
                        assert((4 * (width as int)) * 0 == 0) by (nonlinear_arith);
                        assert(pixels@.len() == 0);
                        assert(pixels@ =~= flipped_rows(pixels@, 4 * (width as int), 0));
                    }
                    Ok(Texture { width, height, pixels })
                } else {
                    let row_bytes: usize = pixels.len() / (height as usize);
                    proof {
                        lemma_div_by_multiple(4 * (width as int), height as int);
                        assert(row_bytes as int == 4 * (width as int));
                    }
                    let flipped = flip_rows(&pixels, row_bytes, height as usize);
                    Ok(Texture { width, height, pixels: flipped })
                }
            },
        }
    }
}

} // verus!
