//! Colour suppression: pixels inside a box of the colour cube turn black.

use vstd::prelude::*;
use crate::pixels::{black, lemma_offset_bounds, PixelBuffer, PixelGrid, Rgb};

verus! {

/// A closed interval of channel values.
#[derive(Clone, Copy, Debug, PartialEq, Eq, Structural)]
pub struct ChannelRange {
    pub lo: u8,
    pub hi: u8,
}

impl ChannelRange {
    /// Whether `v` lies in the interval, ends included.
    pub open spec fn contains(self, v: u8) -> bool {
        self.lo <= v <= self.hi
    }

    /// Whether `v` lies in the interval, ends included.
    pub fn holds(&self, v: u8) -> (b: bool)
        ensures
            b == self.contains(v),
    {
        self.lo <= v && v <= self.hi
    }
}

/// One closed interval per channel.
#[derive(Clone, Copy, Debug, PartialEq, Eq, Structural)]
pub struct ColorFilter {
    pub red: ChannelRange,
    pub green: ChannelRange,
    pub blue: ChannelRange,
}

impl ColorFilter {
    /// Whether all three channels of `p` lie in their intervals.
    pub open spec fn matches(self, p: Rgb) -> bool {
        self.red.contains(p.r) && self.green.contains(p.g) && self.blue.contains(p.b)
    }

    /// What the filter makes of one pixel.
    pub open spec fn filtered_pixel(self, p: Rgb) -> Rgb {
        if self.matches(p) {
            black()
        } else {
            p
        }
    }

    /// What the filter makes of a whole grid.
    pub open spec fn filtered(self, pixels: PixelGrid) -> PixelGrid {
        PixelGrid {
            bytes: Seq::new(
                pixels.bytes.len(),
                |i: int|
                    {
                        let k = i / 3;
                        let p = Rgb {
                            r: pixels.bytes[3 * k],
                            g: pixels.bytes[3 * k + 1],
                            b: pixels.bytes[3 * k + 2],
                        };
                        if self.matches(p) {
                            0u8
                        } else {
                            pixels.bytes[i]
                        }
                    },
            ),
            ..pixels
        }
    }

    /// The filter that suppresses saturated blue: red up to 120, green up
    /// to 100, blue from 100.
    pub open spec fn blue_spec() -> ColorFilter {
        ColorFilter {
            red: ChannelRange { lo: 0, hi: 120 },
            green: ChannelRange { lo: 0, hi: 100 },
            blue: ChannelRange { lo: 100, hi: 255 },
        }
    }

    /// The filter that suppresses saturated blue.
    pub fn blue() -> (f: ColorFilter)
        ensures
            f == ColorFilter::blue_spec(),
    {
        ColorFilter {
            red: ChannelRange { lo: 0, hi: 120 },
            green: ChannelRange { lo: 0, hi: 100 },
            blue: ChannelRange { lo: 100, hi: 255 },
        }
    }

    /// Whether all three channels of `p` lie in their intervals.
    pub fn accepts(&self, p: Rgb) -> (b: bool)
        ensures
            b == self.matches(p),
    {
        self.red.holds(p.r) && self.green.holds(p.g) && self.blue.holds(p.b)
    }

    /// Turns every matching pixel black, in place, and leaves the others.
    pub fn apply(&self, pixels: &mut PixelBuffer)
        requires
            old(pixels).wf(),
        ensures
            final(pixels).wf(),
            final(pixels)@ == self.filtered(old(pixels)@),
            forall|x: int, y: int|
                old(pixels)@.in_bounds(x, y) ==> #[trigger] final(pixels)@.pixel(x, y)
                    == self.filtered_pixel(old(pixels)@.pixel(x, y)),
    {
        let width = pixels.width();
        let height = pixels.height();
        let ghost start = pixels@;
        let mut y: usize = 0;
        while y < height
            invariant
                y <= height,
                width == start.width,
                height == start.height,
                start.wf(),
                pixels.wf(),
                pixels@.width == start.width,
                pixels@.height == start.height,
                forall|i: int|
                    0 <= i < start.bytes.len() ==> pixels@.bytes[i] == (if i < y * width * 3 {
                        self.filtered(start).bytes[i]
                    } else {
                        start.bytes[i]
                    }),
            decreases height - y,
        {
            let mut x: usize = 0;
            while x < width
                invariant
                    x <= width,
                    y < height,
                    width == start.width,
                    height == start.height,
                    start.wf(),
                    pixels.wf(),
                    pixels@.width == start.width,
                    pixels@.height == start.height,
                    forall|i: int|
                        0 <= i < start.bytes.len() ==> pixels@.bytes[i] == (if i < (y * width + x)
                            * 3 {
                            self.filtered(start).bytes[i]
                        } else {
                            start.bytes[i]
                        }),
                decreases width - x,
            {
                proof {
                    lemma_offset_bounds(width as nat, height as nat, x as int, y as int);
                }
                let ghost before = pixels@;
                let ghost k = y * width + x;
                let p = pixels.pixel_at(x, y);
                assert(p == Rgb {
                    r: start.bytes[3 * k],
                    g: start.bytes[3 * k + 1],
                    b: start.bytes[3 * k + 2],
                });
                if self.accepts(p) {
                    pixels.set_pixel_at(x, y, Rgb::black());
                }
                assert forall|i: int| 0 <= i < start.bytes.len() implies pixels@.bytes[i] == (if i
                    < (k + 1) * 3 {
                    self.filtered(start).bytes[i]
                } else {
                    start.bytes[i]
                }) by {
                    if 3 * k <= i < 3 * k + 3 {
                        assert(i / 3 == k);
                    }
                }
                x += 1;
            }
            proof {
                assert((y * width + width) * 3 == (y + 1) * width * 3) by (nonlinear_arith);
            }
            y += 1;
        }
        proof {
            assert(pixels@.bytes =~= self.filtered(start).bytes);
            assert forall|x: int, y: int| start.in_bounds(x, y) implies #[trigger] pixels@.pixel(
                x,
                y,
            ) == self.filtered_pixel(start.pixel(x, y)) by {
                lemma_filtered_pointwise(*self, start, x, y);
            }
        }
    }
}

/// Turns saturated blue black, in place: the filter of `ColorFilter::blue`.
pub fn apply_blue_mask(pixels: &mut PixelBuffer)
    requires
        old(pixels).wf(),
    ensures
        final(pixels).wf(),
        final(pixels)@ == ColorFilter::blue_spec().filtered(old(pixels)@),
{
    ColorFilter::blue().apply(pixels)
}

/// Inside its intervals a pixel turns black; outside any one of them it
/// stays as it is.
pub proof fn lemma_filtered_pointwise(filter: ColorFilter, pixels: PixelGrid, x: int, y: int)
    requires
        pixels.wf(),
        pixels.in_bounds(x, y),
    ensures
        filter.filtered(pixels).pixel(x, y) == filter.filtered_pixel(pixels.pixel(x, y)),
        filter.matches(pixels.pixel(x, y)) ==> filter.filtered(pixels).pixel(x, y) == black(),
        !filter.matches(pixels.pixel(x, y)) ==> filter.filtered(pixels).pixel(x, y) == pixels.pixel(
            x,
            y,
        ),
{
    lemma_offset_bounds(pixels.width, pixels.height, x, y);
    let k = y * pixels.width + x;
    let i = pixels.offset(x, y);
    assert(i == 3 * k);
    assert(i / 3 == k && (i + 1) / 3 == k && (i + 2) / 3 == k);
}

} // verus!
