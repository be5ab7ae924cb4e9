//! Glyph coverage masks and the clipped blend of one mask into a canvas.

use vstd::prelude::*;
use crate::pixels::{
    lemma_offset_bounds, lemma_offset_inverse, lemma_offset_split, Channel, PixelBuffer, PixelGrid,
    Rgb,
};

verus! {

/// The mathematical model of a coverage mask: a box of `width * height`
/// coverage bytes whose top-left corner lies `(left, top)` away from the
/// glyph's origin on the baseline.
pub struct MaskShape {
    pub left: int,
    pub top: int,
    pub width: nat,
    pub height: nat,
    pub coverage: Seq<u8>,
}

impl MaskShape {
    pub open spec fn wf(self) -> bool {
        self.coverage.len() == self.width * self.height
    }

    /// Column of the mask that falls on canvas column `x` when the glyph's
    /// origin is at column `ox`.
    pub open spec fn column(self, ox: int, x: int) -> int {
        x - ox - self.left
    }

    /// Row of the mask that falls on canvas row `y` when the glyph's origin
    /// is at row `oy`.
    pub open spec fn row(self, oy: int, y: int) -> int {
        y - oy - self.top
    }

    /// Whether the mask, placed with its origin at `(ox, oy)`, has a pixel on
    /// canvas position `(x, y)`.
    pub open spec fn covers(self, ox: int, oy: int, x: int, y: int) -> bool {
        0 <= self.column(ox, x) < self.width && 0 <= self.row(oy, y) < self.height
    }

    /// The coverage byte that falls on canvas position `(x, y)`.
    pub open spec fn coverage_at(self, ox: int, oy: int, x: int, y: int) -> u8 {
        self.coverage[self.row(oy, y) * self.width + self.column(ox, x)]
    }
}

/// The canvas after a mask has been blended in with its origin at
/// `(ox, oy)`: wherever a mask pixel falls on the canvas, the chosen channel
/// takes the coverage byte; every other byte keeps its value. Mask pixels
/// that fall outside the canvas leave no trace.
pub open spec fn stamped(
    canvas: PixelGrid,
    mask: MaskShape,
    ox: int,
    oy: int,
    channel: Channel,
) -> PixelGrid {
    PixelGrid {
        bytes: Seq::new(
            canvas.bytes.len(),
            |i: int|
                {
                    let x = (i / 3) % (canvas.width as int);
                    let y = (i / 3) / (canvas.width as int);
                    if i % 3 == channel.index() && mask.covers(ox, oy, x, y) {
                        mask.coverage_at(ox, oy, x, y)
                    } else {
                        canvas.bytes[i]
                    }
                },
        ),
        ..canvas
    }
}

/// Byte `i` of a canvas after the mask pixels that precede mask position
/// `(rows_done, cols_done)` in row-major order have been blended in.
spec fn stamped_byte(
    canvas: PixelGrid,
    mask: MaskShape,
    ox: int,
    oy: int,
    channel: Channel,
    rows_done: int,
    cols_done: int,
    i: int,
) -> u8 {
    let x = (i / 3) % (canvas.width as int);
    let y = (i / 3) / (canvas.width as int);
    let row = mask.row(oy, y);
    if i % 3 == channel.index() && mask.covers(ox, oy, x, y) && (row < rows_done || (row
        == rows_done && mask.column(ox, x) < cols_done)) {
        mask.coverage_at(ox, oy, x, y)
    } else {
        canvas.bytes[i]
    }
}

/// The canvas after the first `rows_done` rows of the mask, and the first
/// `cols_done` pixels of the next row, have been blended in.
spec fn stamped_upto(
    canvas: PixelGrid,
    mask: MaskShape,
    ox: int,
    oy: int,
    channel: Channel,
    rows_done: int,
    cols_done: int,
) -> PixelGrid {
    PixelGrid {
        bytes: Seq::new(
            canvas.bytes.len(),
            |i: int| stamped_byte(canvas, mask, ox, oy, channel, rows_done, cols_done, i),
        ),
        ..canvas
    }
}

/// A pixel with one channel replaced.
pub open spec fn with_channel_value(p: Rgb, channel: Channel, value: u8) -> Rgb {
    match channel {
        Channel::Red => Rgb { r: value, ..p },
        Channel::Green => Rgb { g: value, ..p },
        Channel::Blue => Rgb { b: value, ..p },
    }
}

/// Blending keeps the canvas's size. A canvas pixel under the mask has the
/// chosen channel replaced by the coverage byte that falls on it and keeps
/// the other two; a pixel that the mask does not reach keeps all three.
pub proof fn lemma_stamped_pointwise(
    canvas: PixelGrid,
    mask: MaskShape,
    ox: int,
    oy: int,
    channel: Channel,
    x: int,
    y: int,
)
    requires
        canvas.wf(),
        canvas.in_bounds(x, y),
    ensures
        stamped(canvas, mask, ox, oy, channel).wf(),
        stamped(canvas, mask, ox, oy, channel).width == canvas.width,
        stamped(canvas, mask, ox, oy, channel).height == canvas.height,
        stamped(canvas, mask, ox, oy, channel).pixel(x, y) == (if mask.covers(ox, oy, x, y) {
            with_channel_value(canvas.pixel(x, y), channel, mask.coverage_at(ox, oy, x, y))
        } else {
            canvas.pixel(x, y)
        }),
{
    lemma_offset_split(canvas.width, canvas.height, x, y, 0);
    lemma_offset_split(canvas.width, canvas.height, x, y, 1);
    lemma_offset_split(canvas.width, canvas.height, x, y, 2);
}

/// A glyph's coverage mask: one byte per pixel of its bounding box, row by
/// row, 0 for untouched and 255 for fully covered.
pub struct GlyphMask {
    left: i32,
    top: i32,
    width: usize,
    height: usize,
    coverage: Vec<u8>,
}

impl View for GlyphMask {
    type V = MaskShape;

    closed spec fn view(&self) -> MaskShape {
        MaskShape {
            left: self.left as int,
            top: self.top as int,
            width: self.width as nat,
            height: self.height as nat,
            coverage: self.coverage@,
        }
    }
}

impl GlyphMask {
    pub open spec fn wf(&self) -> bool {
        self@.wf()
    }

    /// A mask from its bounding box and coverage bytes; `None` unless there
    /// is exactly one byte per pixel of the box.
    pub fn new(left: i32, top: i32, width: usize, height: usize, coverage: Vec<u8>) -> (out: Option<
        GlyphMask,
    >)
        ensures
            out is Some <==> coverage@.len() == width * height,
            out matches Some(mask) ==> mask.wf() && mask@ == (MaskShape {
                left: left as int,
                top: top as int,
                width: width as nat,
                height: height as nat,
                coverage: coverage@,
            }),
    {
        let given = coverage.len();
        match width.checked_mul(height) {
            Some(area) => {
                if given == area {
                    Some(GlyphMask { left, top, width, height, coverage })
                } else {
                    None
                }
            },
            None => None,
        }
    }

    pub fn left(&self) -> (v: i32)
        ensures
            v == self@.left,
    {
        self.left
    }

    pub fn top(&self) -> (v: i32)
        ensures
            v == self@.top,
    {
        self.top
    }

    pub fn width(&self) -> (v: usize)
        ensures
            v == self@.width,
    {
        self.width
    }

    pub fn height(&self) -> (v: usize)
        ensures
            v == self@.height,
    {
        self.height
    }

    /// The coverage byte at column `mx`, row `my` of the mask.
    pub fn coverage_at(&self, mx: usize, my: usize) -> (v: u8)
        requires
            self.wf(),
            mx < self@.width,
            my < self@.height,
        ensures
            v == self@.coverage[my * self@.width + mx],
    {
        let len = self.coverage.len();
        proof {
            lemma_offset_bounds(self.width as nat, self.height as nat, mx as int, my as int);
        }
        self.coverage[my * self.width + mx]
    }
}

/// Before any mask pixel is blended the canvas is as it was.
proof fn lemma_stamp_none(
    canvas: PixelGrid,
    mask: MaskShape,
    ox: int,
    oy: int,
    channel: Channel,
)
    ensures
        stamped_upto(canvas, mask, ox, oy, channel, 0, 0) == canvas,
{
    assert(stamped_upto(canvas, mask, ox, oy, channel, 0, 0).bytes =~= canvas.bytes);
}

/// Once every row of the mask is done, the whole mask is blended in.
proof fn lemma_stamp_all_rows(
    canvas: PixelGrid,
    mask: MaskShape,
    ox: int,
    oy: int,
    channel: Channel,
)
    ensures
        stamped_upto(canvas, mask, ox, oy, channel, mask.height as int, 0) == stamped(
            canvas,
            mask,
            ox,
            oy,
            channel,
        ),
{
    assert(stamped_upto(canvas, mask, ox, oy, channel, mask.height as int, 0).bytes =~= stamped(
        canvas,
        mask,
        ox,
        oy,
        channel,
    ).bytes);
}

/// Finishing a row of the mask is the same as standing at the start of the
/// next one.
proof fn lemma_stamp_row_end(
    canvas: PixelGrid,
    mask: MaskShape,
    ox: int,
    oy: int,
    channel: Channel,
    my: int,
)
    ensures
        stamped_upto(canvas, mask, ox, oy, channel, my, mask.width as int) == stamped_upto(
            canvas,
            mask,
            ox,
            oy,
            channel,
            my + 1,
            0,
        ),
{
    assert(stamped_upto(canvas, mask, ox, oy, channel, my, mask.width as int).bytes
        =~= stamped_upto(canvas, mask, ox, oy, channel, my + 1, 0).bytes);
}

/// Blending mask pixel `(mx, my)`: if it falls on the canvas, one channel
/// byte changes; if not, nothing does.
proof fn lemma_stamp_step(
    canvas: PixelGrid,
    mask: MaskShape,
    ox: int,
    oy: int,
    channel: Channel,
    my: int,
    mx: int,
)
    requires
        canvas.wf(),
        0 <= mx < mask.width,
        0 <= my < mask.height,
    ensures
        ({
            let ax = ox + mask.left + mx;
            let ay = oy + mask.top + my;
            let before = stamped_upto(canvas, mask, ox, oy, channel, my, mx);
            let after = stamped_upto(canvas, mask, ox, oy, channel, my, mx + 1);
            if canvas.in_bounds(ax, ay) {
                after == before.with_channel(ax, ay, channel, mask.coverage[my * mask.width + mx])
            } else {
                after == before
            }
        }),
{
    let ax = ox + mask.left + mx;
    let ay = oy + mask.top + my;
    let before = stamped_upto(canvas, mask, ox, oy, channel, my, mx);
    let after = stamped_upto(canvas, mask, ox, oy, channel, my, mx + 1);
    let w = canvas.width as int;
    if canvas.in_bounds(ax, ay) {
        let j = canvas.offset(ax, ay) + channel.index();
        lemma_offset_split(canvas.width, canvas.height, ax, ay, channel.index());
        let target = before.with_channel(ax, ay, channel, mask.coverage[my * mask.width + mx]);
        assert forall|i: int| 0 <= i < after.bytes.len() implies after.bytes[i]
            == target.bytes[i] by {
            lemma_offset_inverse(canvas.width, canvas.height, i);
        }
        assert(after.bytes =~= target.bytes);
    } else {
        assert forall|i: int| 0 <= i < after.bytes.len() implies after.bytes[i]
            == before.bytes[i] by {
            lemma_offset_inverse(canvas.width, canvas.height, i);
        }
        assert(after.bytes =~= before.bytes);
    }
}

/// Largest distance from the canvas's corner at which `blend_at` takes a
/// glyph's origin.
pub(crate) const ORIGIN_LIMIT: i128 = 0x10_0000_0000_0000_0000_0000_0000;

/// Blends a glyph's coverage into one channel of the canvas, with the
/// glyph's origin at `(ox, oy)`. Each mask pixel that falls on the canvas
/// replaces that channel's byte with its coverage; the other two channels,
/// and every pixel the mask does not reach, keep their values. Mask pixels
/// outside the canvas are dropped.
pub fn blend_glyph(canvas: &mut PixelBuffer, mask: &GlyphMask, ox: i64, oy: i64, channel: Channel)
    requires
        old(canvas).wf(),
        mask.wf(),
    ensures
        final(canvas).wf(),
        final(canvas)@ == stamped(old(canvas)@, mask@, ox as int, oy as int, channel),
        final(canvas)@.width == old(canvas)@.width,
        final(canvas)@.height == old(canvas)@.height,
        final(canvas)@.bytes.len() == old(canvas)@.bytes.len(),
{
    blend_at(canvas, mask, ox as i128, oy as i128, channel)
}

/// `blend_glyph` for origins as far out as a grid of cells can reach.
pub(crate) fn blend_at(
    canvas: &mut PixelBuffer,
    mask: &GlyphMask,
    ox: i128,
    oy: i128,
    channel: Channel,
)
    requires
        old(canvas).wf(),
        mask.wf(),
        -ORIGIN_LIMIT <= ox <= ORIGIN_LIMIT,
        -ORIGIN_LIMIT <= oy <= ORIGIN_LIMIT,
    ensures
        final(canvas).wf(),
        final(canvas)@ == stamped(old(canvas)@, mask@, ox as int, oy as int, channel),
{
    let width = canvas.width();
    let height = canvas.height();
    let ghost start = canvas@;
    proof {
        lemma_stamp_none(start, mask@, ox as int, oy as int, channel);
    }
    let mut my: usize = 0;
    while my < mask.height
        invariant
            my <= mask.height,
            -ORIGIN_LIMIT <= ox <= ORIGIN_LIMIT,
            -ORIGIN_LIMIT <= oy <= ORIGIN_LIMIT,
            mask.wf(),
            start.wf(),
            canvas.wf(),
            width == start.width,
            height == start.height,
            canvas@ == stamped_upto(start, mask@, ox as int, oy as int, channel, my as int, 0),
        decreases mask.height - my,
    {
        let ay: i128 = oy + mask.top as i128 + my as i128;
        let mut mx: usize = 0;
        while mx < mask.width
            invariant
                mx <= mask.width,
                my < mask.height,
                -ORIGIN_LIMIT <= ox <= ORIGIN_LIMIT,
                mask.wf(),
                start.wf(),
                canvas.wf(),
                width == start.width,
                height == start.height,
                ay == oy + mask.top + my,
                canvas@ == stamped_upto(
                    start,
                    mask@,
                    ox as int,
                    oy as int,
                    channel,
                    my as int,
                    mx as int,
                ),
            decreases mask.width - mx,
        {
            let ax: i128 = ox + mask.left as i128 + mx as i128;
            proof {
                lemma_stamp_step(start, mask@, ox as int, oy as int, channel, my as int, mx as int);
            }
            if 0 <= ax && ax < width as i128 && 0 <= ay && ay < height as i128 {
                let value = mask.coverage_at(mx, my);
                canvas.set_channel_at(ax as usize, ay as usize, channel, value);
            }
            mx += 1;
        }
        proof {
            lemma_stamp_row_end(start, mask@, ox as int, oy as int, channel, my as int);
        }
        my += 1;
    }
    proof {
        lemma_stamp_all_rows(start, mask@, ox as int, oy as int, channel);
    }
}

} // verus!
