//! Luminance: one intensity byte per pixel.

use vstd::prelude::*;
use crate::pixels::{channel_value, lemma_offset_bounds, PixelBuffer, PixelGrid, Rgb};

verus! {

/// Perceptual luminance of a pixel: the red, green and blue bytes weighted
/// 0.2126, 0.7152 and 0.0722, rounded to the nearest integer (halves go up).
pub open spec fn luma(p: Rgb) -> u8 {
    ((2126 * p.r + 7152 * p.g + 722 * p.b + 5000) / 10000) as u8
}

/// The mathematical model of an intensity buffer.
pub struct IntensityGrid {
    pub width: nat,
    pub height: nat,
    pub values: Seq<u8>,
}

impl IntensityGrid {
    pub open spec fn wf(self) -> bool {
        self.values.len() == self.width * self.height
    }

    pub open spec fn in_bounds(self, x: int, y: int) -> bool {
        0 <= x < self.width && 0 <= y < self.height
    }

    pub open spec fn at(self, x: int, y: int) -> u8 {
        self.values[y * self.width + x]
    }

    /// A grid of the given size in which every intensity is `value`.
    pub open spec fn uniform(width: nat, height: nat, value: u8) -> IntensityGrid {
        IntensityGrid { width, height, values: Seq::new(width * height, |k: int| value) }
    }
}

/// The intensity grid of a pixel grid: same size, each value the luminance
/// of the pixel at that place.
pub open spec fn luminance_of(pixels: PixelGrid) -> IntensityGrid {
    IntensityGrid {
        width: pixels.width,
        height: pixels.height,
        values: Seq::new(
            pixels.width * pixels.height,
            |k: int|
                luma(
                    Rgb {
                        r: pixels.bytes[3 * k],
                        g: pixels.bytes[3 * k + 1],
                        b: pixels.bytes[3 * k + 2],
                    },
                ),
        ),
    }
}

/// The luminance formula never leaves the byte range.
pub proof fn lemma_luma_range(p: Rgb)
    ensures
        0 <= (2126 * p.r + 7152 * p.g + 722 * p.b + 5000) / 10000 <= 255,
        luma(p) == (2126 * p.r + 7152 * p.g + 722 * p.b + 5000) / 10000,
{
}

/// Each intensity is the luminance of the pixel at the same coordinates.
pub proof fn lemma_luminance_pointwise(pixels: PixelGrid, x: int, y: int)
    requires
        pixels.in_bounds(x, y),
    ensures
        luminance_of(pixels).at(x, y) == luma(pixels.pixel(x, y)),
{
    lemma_offset_bounds(pixels.width, pixels.height, x, y);
}

/// A buffer of one colour has one intensity; white gives 255 and black 0.
pub proof fn lemma_luminance_uniform(width: nat, height: nat, color: Rgb)
    ensures
        luminance_of(PixelGrid::uniform(width, height, color)) == IntensityGrid::uniform(
            width,
            height,
            luma(color),
        ),
        luma(Rgb { r: 255, g: 255, b: 255 }) == 255,
        luma(Rgb { r: 0, g: 0, b: 0 }) == 0,
{
    let grid = PixelGrid::uniform(width, height, color);
    let expected = IntensityGrid::uniform(width, height, luma(color));
    assert forall|k: int| 0 <= k < width * height implies luminance_of(grid).values[k]
        == expected.values[k] by {
        assert(0 <= 3 * k && 3 * k + 2 < width * height * 3);
        assert((3 * k) % 3 == 0 && (3 * k + 1) % 3 == 1 && (3 * k + 2) % 3 == 2);
        assert(grid.bytes[3 * k] == channel_value(color, 0));
        assert(grid.bytes[3 * k + 1] == channel_value(color, 1));
        assert(grid.bytes[3 * k + 2] == channel_value(color, 2));
    }
    assert(luminance_of(grid).values =~= expected.values);
}

/// One intensity byte per pixel, row by row.
pub struct IntensityBuffer {
    width: usize,
    height: usize,
    data: Vec<u8>,
}

impl View for IntensityBuffer {
    type V = IntensityGrid;

    closed spec fn view(&self) -> IntensityGrid {
        IntensityGrid { width: self.width as nat, height: self.height as nat, values: self.data@ }
    }
}

impl IntensityBuffer {
    pub open spec fn wf(&self) -> bool {
        self@.wf()
    }

    /// Wraps raw row-major intensities; `None` unless there are exactly
    /// `width * height` of them.
    pub fn from_raw(width: usize, height: usize, data: Vec<u8>) -> (out: Option<IntensityBuffer>)
        ensures
            out is Some <==> data@.len() == width * height,
            out matches Some(buf) ==> buf.wf() && buf@ == (IntensityGrid {
                width: width as nat,
                height: height as nat,
                values: data@,
            }),
    {
        let given = data.len();
        match width.checked_mul(height) {
            Some(area) => {
                if given == area {
                    Some(IntensityBuffer { width, height, data })
                } else {
                    None
                }
            },
            None => None,
        }
    }

    pub fn width(&self) -> (w: usize)
        ensures
            w == self@.width,
    {
        self.width
    }

    pub fn height(&self) -> (h: usize)
        ensures
            h == self@.height,
    {
        self.height
    }

    /// The raw intensities, row by row.
    pub fn as_bytes(&self) -> (bytes: &[u8])
        ensures
            bytes@ == self@.values,
    {
        self.data.as_slice()
    }

    /// The intensity at `(x, y)`.
    pub fn value_at(&self, x: usize, y: usize) -> (v: u8)
        requires
            self.wf(),
            self@.in_bounds(x as int, y as int),
        ensures
            v == self@.at(x as int, y as int),
    {
        let len = self.data.len();
        proof {
            lemma_offset_bounds(self.width as nat, self.height as nat, x as int, y as int);
        }
        self.data[y * self.width + x]
    }

    /// The intensity at `(x, y)`, or `None` outside the buffer.
    pub fn get(&self, x: usize, y: usize) -> (v: Option<u8>)
        requires
            self.wf(),
        ensures
            v == if self@.in_bounds(x as int, y as int) {
                Some(self@.at(x as int, y as int))
            } else {
                None
            },
    {
        if x < self.width && y < self.height {
            Some(self.value_at(x, y))
        } else {
            None
        }
    }
}

/// Luminance of one pixel.
pub fn pixel_luma(p: Rgb) -> (v: u8)
    ensures
        v == luma(p),
{
    let sum: u32 = 2126 * (p.r as u32) + 7152 * (p.g as u32) + 722 * (p.b as u32) + 5000;
    (sum / 10000) as u8
}

/// The intensity buffer of a pixel buffer: same dimensions, each byte the
/// luminance of the pixel at the same place.
pub fn luminance(pixels: &PixelBuffer) -> (out: IntensityBuffer)
    requires
        pixels.wf(),
    ensures
        out.wf(),
        out@ == luminance_of(pixels@),
{
    let bytes = pixels.as_bytes();
    let width = pixels.width();
    let height = pixels.height();
    let total = bytes.len();
    let count: usize = total / 3;
    assert(count == width * height);
    let mut data: Vec<u8> = Vec::with_capacity(count);
    let mut k: usize = 0;
    while k < count
        invariant
            k <= count,
            count * 3 == total,
            total == bytes@.len(),
            bytes@ == pixels@.bytes,
            count == pixels@.width * pixels@.height,
            data@.len() == k,
            forall|j: int| 0 <= j < k ==> data@[j] == luminance_of(pixels@).values[j],
        decreases count - k,
    {
        let p = Rgb { r: bytes[3 * k], g: bytes[3 * k + 1], b: bytes[3 * k + 2] };
        data.push(pixel_luma(p));
        k += 1;
    }
    let out = IntensityBuffer { width, height, data };
    assert(out@.values =~= luminance_of(pixels@).values);
    out
}

} // verus!
