//! The simulation's configuration: grid size, upscale factor, colours and
//! frame pacing.
use vstd::prelude::*;

verus! {

/// Logical grid width, in cells.
pub const WIDTH: usize = 100;

/// Logical grid height, in cells.
pub const HEIGHT: usize = 100;

/// Side of the square block of pixels that shows one cell.
pub const SCALE: usize = 6;

/// Colour of a live cell (fluorescent green).
pub const ALIVE_COLOR: u32 = 0x39FF14;

/// Colour of a dead cell (very dark purple).
pub const DEAD_COLOR: u32 = 0x0C0015;

/// Target duration of one frame, in nanoseconds (100 ms).
pub const FRAME_NANOS: u64 = 100_000_000;

/// Everything the step engine, the renderer and the frame loop are
/// parameterised by.
#[derive(Clone, Copy, Debug, PartialEq, Eq)]
pub struct Config {
    pub width: usize,
    pub height: usize,
    pub scale: usize,
    pub alive_color: u32,
    pub dead_color: u32,
    pub frame_nanos: u64,
}

impl Config {
    /// Width of the pixel buffer.
    pub open spec fn pixel_width(self) -> int {
        self.width * self.scale
    }

    /// Height of the pixel buffer.
    pub open spec fn pixel_height(self) -> int {
        self.height * self.scale
    }

    /// Number of pixels in the pixel buffer.
    pub open spec fn pixel_count(self) -> int {
        self.pixel_width() * self.pixel_height()
    }

    /// Non-empty dimensions, and a pixel buffer whose size fits in `usize`.
    pub open spec fn valid(self) -> bool {
        &&& self.width > 0
        &&& self.height > 0
        &&& self.scale > 0
        &&& self.pixel_count() <= usize::MAX
    }

    /// The configuration the simulation runs with.
    pub fn standard() -> (c: Config)
        ensures
            c.valid(),
            c.width == WIDTH,
            c.height == HEIGHT,
            c.scale == SCALE,
            c.alive_color == ALIVE_COLOR,
            c.dead_color == DEAD_COLOR,
            c.frame_nanos == FRAME_NANOS,
    {
        assert((WIDTH * SCALE) as int * (HEIGHT * SCALE) as int == 360_000) by (nonlinear_arith)
            requires
                WIDTH == 100,
                HEIGHT == 100,
                SCALE == 6,
        ;
        Config {
            width: WIDTH,
            height: HEIGHT,
            scale: SCALE,
            alive_color: ALIVE_COLOR,
            dead_color: DEAD_COLOR,
            frame_nanos: FRAME_NANOS,
        }
    }

    /// Width of the pixel buffer.
    pub fn window_width(&self) -> (r: usize)
        requires
            self.valid(),
        ensures
            r == self.pixel_width(),
    {
        proof {
            lemma_pixel_dims(*self);
        }
        self.width * self.scale
    }

    /// Height of the pixel buffer.
    pub fn window_height(&self) -> (r: usize)
        requires
            self.valid(),
        ensures
            r == self.pixel_height(),
    {
        proof {
            lemma_pixel_dims(*self);
        }
        self.height * self.scale
    }

    /// Number of pixels in the pixel buffer.
    pub fn pixel_len(&self) -> (r: usize)
        requires
            self.valid(),
        ensures
            r == self.pixel_count(),
    {
        self.window_width() * self.window_height()
    }
}

/// Each side of a valid pixel buffer, and the cell grid, fit in `usize`.
pub proof fn lemma_pixel_dims(c: Config)
    requires
        c.valid(),
    ensures
        0 < c.pixel_width() <= c.pixel_count(),
        0 < c.pixel_height() <= c.pixel_count(),
        c.width <= c.pixel_width(),
        c.height <= c.pixel_height(),
        c.width * c.height <= c.pixel_count(),
{
    let w = c.width as int;
    let h = c.height as int;
    let s = c.scale as int;
    assert(0 < w * s && w <= w * s) by (nonlinear_arith)
        requires
            w > 0,
            s > 0,
    ;
    assert(0 < h * s && h <= h * s) by (nonlinear_arith)
        requires
            h > 0,
            s > 0,
    ;
    assert(w * s <= (w * s) * (h * s) && h * s <= (w * s) * (h * s)) by (nonlinear_arith)
        requires
            w * s > 0,
            h * s > 0,
    ;
    assert(w * h <= (w * s) * (h * s)) by (nonlinear_arith)
        requires
            w > 0,
            h > 0,
            w <= w * s,
            h <= h * s,
    ;
}

} // verus!
