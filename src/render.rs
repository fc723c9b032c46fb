//! Turning one raster frame into a grid of glyph cells.
use vstd::prelude::*;

use crate::frame::{nearest_resized, resize_nearest, rgb_at, RasterFrame, Rgb, CHANNELS};
use crate::geometry::{
    compute_target_size, lemma_target_size_fits, target_size, GeometryError, TerminalGeometry,
};
use crate::pixel::{bucket_of, heat_glyph, heat_map, quantize, BLOCK_GLYPH};

verus! {

/// How frames are drawn and paced.
#[derive(Clone, Copy, Debug, PartialEq, Eq, Structural)]
pub struct RenderConfig {
    /// Style each glyph with its pixel's own colour.
    pub colorize: bool,
    /// Fit the raster to the terminal, keeping its aspect ratio.
    pub resize: bool,
    /// Draw every pixel as a wide solid block instead of a heat-map glyph.
    pub true_color_blocks: bool,
    /// Pause after each frame of an animation or live stream, in milliseconds.
    pub frame_delay_ms: u64,
    /// Replay a finite animation from its start once it ends.
    pub loop_animation: bool,
}

/// Terminal columns taken by one heat-map glyph.
pub const HEAT_CELL_WIDTH: u32 = 1;

/// Terminal columns taken by one solid block: the block glyph is written three
/// times over, so that a pixel looks roughly square in a terminal cell grid.
pub const BLOCK_CELL_WIDTH: u32 = 3;

impl RenderConfig {
    /// Terminal columns taken by the glyph of one pixel.
    pub open spec fn cell_width(&self) -> nat {
        if self.true_color_blocks {
            BLOCK_CELL_WIDTH as nat
        } else {
            HEAT_CELL_WIDTH as nat
        }
    }

    /// Terminal columns taken by the glyph of one pixel: 3 for solid blocks, 1 for
    /// heat-map glyphs. This is the one policy on cell shape that resizing uses.
    pub fn glyph_cell_width(&self) -> (w: u32)
        ensures
            w as nat == self.cell_width(),
            w >= 1,
    {
        if self.true_color_blocks {
            BLOCK_CELL_WIDTH
        } else {
            HEAT_CELL_WIDTH
        }
    }
}

/// What is written for one pixel: its glyph, repeated the frame's cell width
/// times, styled with `color` where that is present.
#[derive(Clone, Copy, Debug, PartialEq, Eq, Structural)]
pub struct Cell {
    pub glyph: char,
    pub color: Option<Rgb>,
}

/// A frame ready for the terminal: `height` rows of `width` cells, row-major, each
/// row to be ended by a newline.
#[derive(Debug)]
pub struct RenderedFrame {
    pub width: u32,
    pub height: u32,
    pub cell_width: u32,
    pub cells: Vec<Cell>,
}

/// The cell drawn for a pixel of colour `c`. The style colour is the pixel's own,
/// whatever its brightness bucket.
pub open spec fn cell_of(c: Rgb, config: RenderConfig) -> Cell {
    Cell {
        glyph: if config.true_color_blocks {
            BLOCK_GLYPH
        } else {
            heat_map()[bucket_of(c.r, c.g, c.b) as int]
        },
        color: if config.colorize {
            Some(c)
        } else {
            None
        },
    }
}

/// The cells of the first `n` pixels of an RGBA byte sequence.
pub open spec fn cells_of(pixels: Seq<u8>, n: nat, config: RenderConfig) -> Seq<Cell> {
    Seq::new(n, |i: int| cell_of(rgb_at(pixels, i), config))
}

impl RenderedFrame {
    /// This is the rendering of a `width` by `height` raster with bytes `pixels`.
    pub open spec fn shows(&self, width: nat, height: nat, pixels: Seq<u8>, config: RenderConfig) -> bool {
        &&& self.width as nat == width
        &&& self.height as nat == height
        &&& self.cell_width as nat == config.cell_width()
        &&& self.cells@ == cells_of(pixels, width * height, config)
    }
}

/// The configuration asks for nothing that the terminal's geometry cannot give.
pub open spec fn geometry_suits(config: RenderConfig, geometry: TerminalGeometry) -> bool {
    !config.resize || (geometry.columns > 0 && geometry.rows > 0)
}

/// The frame is to be resized before it is drawn.
pub open spec fn scales(frame_w: u32, frame_h: u32, config: RenderConfig) -> bool {
    config.resize && frame_w > 0 && frame_h > 0
}

/// Size of the raster that is drawn for a `frame_w` by `frame_h` frame.
pub open spec fn fitted_size(
    frame_w: u32,
    frame_h: u32,
    config: RenderConfig,
    geometry: TerminalGeometry,
) -> (nat, nat) {
    if scales(frame_w, frame_h, config) {
        target_size(
            geometry.columns as nat,
            geometry.rows as nat,
            frame_w as nat,
            frame_h as nat,
            config.cell_width(),
        )
    } else {
        (frame_w as nat, frame_h as nat)
    }
}

/// Bytes of the raster that is drawn for a frame.
pub open spec fn fitted_pixels(
    pixels: Seq<u8>,
    frame_w: u32,
    frame_h: u32,
    config: RenderConfig,
    geometry: TerminalGeometry,
) -> Seq<u8> {
    let (tw, th) = fitted_size(frame_w, frame_h, config, geometry);
    if scales(frame_w, frame_h, config) {
        nearest_resized(pixels, frame_w, frame_h, tw as u32, th as u32)
    } else {
        pixels
    }
}

/// The buffers that resizing a `frame_w` by `frame_h` frame allocates have
/// lengths that fit in `usize`; always so where `usize` has 64 bits.
pub open spec fn fits_memory(
    frame_w: u32,
    frame_h: u32,
    config: RenderConfig,
    geometry: TerminalGeometry,
) -> bool {
    let (tw, th) = fitted_size(frame_w, frame_h, config, geometry);
    scales(frame_w, frame_h, config) ==> {
        &&& 4 * tw * th <= usize::MAX
        &&& 4 * (frame_w as nat) * th <= usize::MAX
    }
}

/// Why a frame could not be rendered.
#[derive(Clone, Copy, Debug, PartialEq, Eq, Structural)]
pub enum RenderError {
    /// Resizing was asked for, and the terminal has no columns or no rows.
    Geometry(GeometryError),
    /// The resized raster would not fit in this machine's address space.
    TooLarge,
}

/// The output of rendering `frame` under `config` and `geometry`.
pub open spec fn renders(
    out: RenderedFrame,
    frame: RasterFrame,
    config: RenderConfig,
    geometry: TerminalGeometry,
) -> bool {
    let (tw, th) = fitted_size(frame.width, frame.height, config, geometry);
    out.shows(
        tw,
        th,
        fitted_pixels(frame.pixels@, frame.width, frame.height, config, geometry),
        config,
    )
}

/// The cell for one pixel.
pub fn render_cell(c: Rgb, config: RenderConfig) -> (cell: Cell)
    ensures
        cell == cell_of(c, config),
{
    let glyph = if config.true_color_blocks {
        BLOCK_GLYPH
    } else {
        heat_glyph(quantize(c.r, c.g, c.b))
    };
    let color = if config.colorize {
        Some(c)
    } else {
        None
    };
    Cell { glyph, color }
}

/// Renders a frame as it is, without resizing: one cell per pixel, rows top to
/// bottom, pixels left to right.
pub fn render_cells(frame: &RasterFrame, config: RenderConfig) -> (out: RenderedFrame)
    requires
        frame.wf(),
    ensures
        out.shows(frame.width as nat, frame.height as nat, frame.pixels@, config),
{
    let ghost pixels = frame.pixels@;
    let len: usize = frame.pixels.len();
    assert(frame.width as nat * frame.height as nat <= len) by (nonlinear_arith)
        requires
            len == 4 * (frame.width as nat) * (frame.height as nat),
    ;
    let n: usize = frame.width as usize * frame.height as usize;
    let mut cells: Vec<Cell> = Vec::new();
    let mut i: usize = 0;
    while i < n
        invariant
            i <= n,
            n == frame.width as nat * frame.height as nat,
            frame.wf(),
            pixels == frame.pixels@,
            len == pixels.len(),
            cells@ == cells_of(pixels, i as nat, config),
        decreases n - i,
    {
        assert(4 * i + 3 < len) by (nonlinear_arith)
            requires
                i < n,
                n == frame.width as nat * frame.height as nat,
                len == 4 * (frame.width as nat) * (frame.height as nat),
        ;
        let base: usize = CHANNELS * i;
        let c = Rgb { r: frame.pixels[base], g: frame.pixels[base + 1], b: frame.pixels[base + 2] };
        let cell = render_cell(c, config);
        cells.push(cell);
        i = i + 1;
        assert(cells@ =~= cells_of(pixels, i as nat, config));
    }
    RenderedFrame {
        width: frame.width,
        height: frame.height,
        cell_width: config.glyph_cell_width(),
        cells,
    }
}

/// `r` is the result of rendering `frame` under `config` and `geometry`: a
/// geometry error where resizing is asked for and the terminal has no columns or
/// no rows, else an error where the resized buffers would not fit in memory, else
/// the rendering.
pub open spec fn render_result(
    r: Result<RenderedFrame, RenderError>,
    frame: RasterFrame,
    config: RenderConfig,
    geometry: TerminalGeometry,
) -> bool {
    if !geometry_suits(config, geometry) {
        r == Err::<RenderedFrame, RenderError>(
            RenderError::Geometry(GeometryError { columns: geometry.columns, rows: geometry.rows }),
        )
    } else if !fits_memory(frame.width, frame.height, config, geometry) {
        r == Err::<RenderedFrame, RenderError>(RenderError::TooLarge)
    } else {
        r matches Ok(out) && renders(out, frame, config, geometry)
    }
}

/// Renders a frame for a terminal of the given geometry. Where `config.resize` is
/// set and the frame has pixels, the frame is first resized to the target size
/// that fits the terminal; that fails exactly when the terminal has no columns or
/// no rows, or when the resized buffers would not fit in memory (which cannot
/// happen where `usize` has 64 bits). Every other call succeeds.
pub fn render_frame(frame: &RasterFrame, config: RenderConfig, geometry: TerminalGeometry) -> (r:
    Result<RenderedFrame, RenderError>)
    requires
        frame.wf(),
    ensures
        render_result(r, *frame, config, geometry),
{
    if !config.resize {
        return Ok(render_cells(frame, config));
    }
    let cw = config.glyph_cell_width();
    let (tw, th) = match compute_target_size(geometry, frame.width, frame.height, cw) {
        Ok(t) => t,
        Err(e) => {
            return Err(RenderError::Geometry(e));
        },
    };
    if frame.width == 0 || frame.height == 0 {
        return Ok(render_cells(frame, config));
    }
    proof {
        lemma_target_size_fits(
            geometry.columns as nat,
            geometry.rows as nat,
            frame.width as nat,
            frame.height as nat,
            cw as nat,
        );
    }
    assert(4 * (tw as nat) * (th as nat) <= 4 * 0xffff_ffff * 0xffff_ffff) by (nonlinear_arith)
        requires
            tw <= 0xffff_ffff,
            th <= 0xffff_ffff,
    ;
    assert(4 * (frame.width as nat) * (th as nat) <= 4 * 0xffff_ffff * 0xffff_ffff) by (nonlinear_arith)
        requires
            frame.width <= 0xffff_ffff,
            th <= 0xffff_ffff,
    ;
    let out_len: u128 = 4 * (tw as u128) * (th as u128);
    let mid_len: u128 = 4 * (frame.width as u128) * (th as u128);
    if out_len > usize::MAX as u128 || mid_len > usize::MAX as u128 {
        return Err(RenderError::TooLarge);
    }
    let resized = resize_nearest(frame, tw, th);
    Ok(render_cells(&resized, config))
}

/// Rendering is repeatable: two renderings of frames with the same dimensions
/// and bytes, under the same configuration and geometry, both succeed or both
/// fail with the same error, and where they succeed they are cell for cell the
/// same output.
pub proof fn lemma_render_repeatable(
    a: RasterFrame,
    b: RasterFrame,
    config: RenderConfig,
    geometry: TerminalGeometry,
    ra: Result<RenderedFrame, RenderError>,
    rb: Result<RenderedFrame, RenderError>,
)
    requires
        a.width == b.width,
        a.height == b.height,
        a.pixels@ == b.pixels@,
        render_result(ra, a, config, geometry),
        render_result(rb, b, config, geometry),
    ensures
        ra is Ok <==> rb is Ok,
        ra is Err ==> ra->Err_0 == rb->Err_0,
        ra is Ok ==> {
            let (x, y) = (ra->Ok_0, rb->Ok_0);
            &&& x.width == y.width
            &&& x.height == y.height
            &&& x.cell_width == y.cell_width
            &&& x.cells@ == y.cells@
        },
{
}

} // verus!
