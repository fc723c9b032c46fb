//! Raster frames: a grid of RGBA samples, row by row.
use vstd::prelude::*;

verus! {

/// Red, green and blue parts of one pixel.
#[derive(Clone, Copy, Debug, PartialEq, Eq, Structural)]
pub struct Rgb {
    pub r: u8,
    pub g: u8,
    pub b: u8,
}

/// One decoded frame: `width * height` pixels, row-major, four bytes each
/// (red, green, blue, alpha).
#[derive(Debug)]
pub struct RasterFrame {
    pub width: u32,
    pub height: u32,
    pub pixels: Vec<u8>,
}

/// Number of bytes of one RGBA pixel.
pub const CHANNELS: usize = 4;

/// Colour of pixel `i` in a row-major RGBA byte sequence.
pub open spec fn rgb_at(pixels: Seq<u8>, i: int) -> Rgb {
    Rgb { r: pixels[4 * i], g: pixels[4 * i + 1], b: pixels[4 * i + 2] }
}

impl RasterFrame {
    /// The byte buffer holds exactly four bytes for each pixel.
    pub open spec fn wf(&self) -> bool {
        self.pixels@.len() == 4 * (self.width as nat) * (self.height as nat)
    }

    /// Number of pixels.
    pub open spec fn pixel_count(&self) -> nat {
        (self.width as nat) * (self.height as nat)
    }

    /// Builds a frame from its dimensions and RGBA bytes; `None` where the buffer
    /// does not hold exactly four bytes per pixel.
    pub fn from_rgba(width: u32, height: u32, pixels: Vec<u8>) -> (r: Option<RasterFrame>)
        ensures
            r is Some <==> pixels@.len() == 4 * (width as nat) * (height as nat),
            r matches Some(f) ==> f.width == width && f.height == height && f.pixels@
                == pixels@,
    {
        let len: usize = pixels.len();
        assert(width as nat * height as nat <= 0xffff_ffff * 0xffff_ffff) by (nonlinear_arith)
            requires
                width <= 0xffff_ffff,
                height <= 0xffff_ffff,
        ;
        let n: u64 = width as u64 * height as u64;
        if n > usize::MAX as u64 / 4 {
            assert(4 * (width as nat) * (height as nat) > usize::MAX) by (nonlinear_arith)
                requires
                    n == width as nat * height as nat,
                    n > usize::MAX as nat / 4,
            ;
            return None;
        }
        let total: usize = (n as usize) * CHANNELS;
        assert(total == 4 * (width as nat) * (height as nat)) by (nonlinear_arith)
            requires
                n == width as nat * height as nat,
                total == n * 4,
        ;
        if len == total {
            Some(RasterFrame { width, height, pixels })
        } else {
            None
        }
    }
}

/// Bytes of an RGBA image of `width` by `height` resized to `new_width` by
/// `new_height` with nearest-neighbour sampling.
pub uninterp spec fn nearest_resized(
    pixels: Seq<u8>,
    width: u32,
    height: u32,
    new_width: u32,
    new_height: u32,
) -> Seq<u8>;

/// Relies on `image::imageops::resize` with `FilterType::Nearest`: the result is
/// an RGBA buffer of exactly the requested dimensions, whose bytes depend on the
/// source alone. The buffers that it allocates are bounded so that their lengths
/// fit in `usize`.
#[verifier::external_body]
pub(crate) fn resize_nearest(frame: &RasterFrame, new_width: u32, new_height: u32) -> (r:
    RasterFrame)
    requires
        frame.wf(),
        frame.width >= 1,
        frame.height >= 1,
        new_width >= 1,
        new_height >= 1,
        4 * (new_width as nat) * (new_height as nat) <= usize::MAX,
        4 * (frame.width as nat) * (new_height as nat) <= usize::MAX,
    ensures
        r.width == new_width,
        r.height == new_height,
        r.wf(),
        r.pixels@ == nearest_resized(
            frame.pixels@,
            frame.width,
            frame.height,
            new_width,
            new_height,
        ),
{
    let source = image::ImageBuffer::<image::Rgba<u8>, &[u8]>::from_raw(
        frame.width,
        frame.height,
        frame.pixels.as_slice(),
    ).unwrap();
    let out = image::imageops::resize(&source, new_width, new_height, image::imageops::FilterType::Nearest);
    RasterFrame { width: out.width(), height: out.height(), pixels: out.into_raw() }
}

} // verus!
