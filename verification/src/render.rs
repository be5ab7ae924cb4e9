//! Drawing on a canvas: a grid of symbols, or a line of text.

use vstd::prelude::*;
use crate::art::{ArtGrid, ArtShape};
use crate::font::{FontAsset, FontShape};
use crate::glyph::{
    blend_at, lemma_stamped_pointwise, stamped, with_channel_value, MaskShape, ORIGIN_LIMIT,
};
use crate::pixels::{black, Channel, PixelBuffer, PixelGrid, Rgb};

verus! {

/// One glyph to draw: the mask, if the font has one for the symbol, and the
/// canvas position of the glyph's origin.
pub struct Placement {
    pub mask: Option<MaskShape>,
    pub x: int,
    pub y: int,
}

/// The canvas after the placements have been drawn one after the other, so
/// that a later glyph overwrites an earlier one where their boxes overlap. A
/// placement without a mask draws nothing.
pub open spec fn stamp_all(
    canvas: PixelGrid,
    placements: Seq<Placement>,
    channel: Channel,
) -> PixelGrid
    decreases placements.len(),
{
    if placements.len() == 0 {
        canvas
    } else {
        let before = stamp_all(canvas, placements.drop_last(), channel);
        let last = placements.last();
        match last.mask {
            Some(mask) => stamped(before, mask, last.x, last.y, channel),
            None => before,
        }
    }
}

/// Where the cells of a grid are drawn: cell `(row, col)` has its origin at
/// `(col * cell_width, row * cell_height + ascent)`; the cells come row by
/// row.
pub open spec fn grid_placements(grid: ArtShape, font: FontShape) -> Seq<Placement> {
    Seq::new(
        grid.rows * grid.cols,
        |k: int|
            Placement {
                mask: font.glyph_for(grid.cells[k]),
                x: (k % (grid.cols as int)) * font.cell_width,
                y: (k / (grid.cols as int)) * font.cell_height + font.ascent,
            },
    )
}

/// Where the characters of a line of text are drawn: character `i` has its
/// origin `i * advance` to the right of `x`, on the baseline `ascent` below
/// `y`.
pub open spec fn text_placements(
    text: Seq<char>,
    font: FontShape,
    x: int,
    y: int,
    advance: nat,
) -> Seq<Placement> {
    Seq::new(
        text.len(),
        |i: int|
            Placement { mask: font.glyph_for(text[i]), x: x + i * advance, y: y + font.ascent },
    )
}

/// Drawing never changes the size of the canvas.
pub proof fn lemma_stamp_all_keeps_size(
    canvas: PixelGrid,
    placements: Seq<Placement>,
    channel: Channel,
)
    ensures
        stamp_all(canvas, placements, channel).width == canvas.width,
        stamp_all(canvas, placements, channel).height == canvas.height,
        stamp_all(canvas, placements, channel).bytes.len() == canvas.bytes.len(),
    decreases placements.len(),
{
    if placements.len() > 0 {
        lemma_stamp_all_keeps_size(canvas, placements.drop_last(), channel);
    }
}

/// Whether some placement has a mask pixel on canvas position `(x, y)`.
pub open spec fn touched(placements: Seq<Placement>, x: int, y: int) -> bool {
    exists|k: int|
        0 <= k < placements.len() && (#[trigger] placements[k]).mask is Some
            && placements[k].mask->0.covers(placements[k].x, placements[k].y, x, y)
}

/// Drawing changes nothing but the chosen channel, and that only where a
/// glyph's mask falls: the two other channels of every pixel, and all three
/// of a pixel that no mask reaches, are as they were.
pub proof fn lemma_stamp_all_pointwise(
    canvas: PixelGrid,
    placements: Seq<Placement>,
    channel: Channel,
    x: int,
    y: int,
)
    requires
        canvas.wf(),
        canvas.in_bounds(x, y),
    ensures
        stamp_all(canvas, placements, channel).wf(),
        channel != Channel::Red ==> stamp_all(canvas, placements, channel).pixel(x, y).r
            == canvas.pixel(x, y).r,
        channel != Channel::Green ==> stamp_all(canvas, placements, channel).pixel(x, y).g
            == canvas.pixel(x, y).g,
        channel != Channel::Blue ==> stamp_all(canvas, placements, channel).pixel(x, y).b
            == canvas.pixel(x, y).b,
        !touched(placements, x, y) ==> stamp_all(canvas, placements, channel).pixel(x, y)
            == canvas.pixel(x, y),
    decreases placements.len(),
{
    if placements.len() > 0 {
        let front = placements.drop_last();
        let last = placements.last();
        lemma_stamp_all_pointwise(canvas, front, channel, x, y);
        lemma_stamp_all_keeps_size(canvas, front, channel);
        let before = stamp_all(canvas, front, channel);
        if last.mask is Some {
            lemma_stamped_pointwise(before, last.mask->0, last.x, last.y, channel, x, y);
        }
        if !touched(placements, x, y) {
            assert(placements[placements.len() - 1] == last);
            if touched(front, x, y) {
                let k = choose|k: int|
                    0 <= k < front.len() && (#[trigger] front[k]).mask is Some
                        && front[k].mask->0.covers(front[k].x, front[k].y, x, y);
                assert(placements[k] == front[k]);
            }
        }
    }
}

/// Where several glyphs reach the same pixel, the one drawn last decides:
/// the chosen channel holds the coverage of the last placement whose mask
/// falls on the pixel.
pub proof fn lemma_stamp_all_last_wins(
    canvas: PixelGrid,
    placements: Seq<Placement>,
    channel: Channel,
    x: int,
    y: int,
    k: int,
)
    requires
        canvas.wf(),
        canvas.in_bounds(x, y),
        0 <= k < placements.len(),
        placements[k].mask is Some,
        placements[k].mask->0.covers(placements[k].x, placements[k].y, x, y),
        forall|j: int|
            k < j < placements.len() ==> !((#[trigger] placements[j]).mask is Some
                && placements[j].mask->0.covers(placements[j].x, placements[j].y, x, y)),
    ensures
        stamp_all(canvas, placements, channel).pixel(x, y) == with_channel_value(
            canvas.pixel(x, y),
            channel,
            placements[k].mask->0.coverage_at(placements[k].x, placements[k].y, x, y),
        ),
    decreases placements.len(),
{
    let front = placements.drop_last();
    let last = placements.last();
    let before = stamp_all(canvas, front, channel);
    lemma_stamp_all_keeps_size(canvas, front, channel);
    lemma_stamp_all_pointwise(canvas, front, channel, x, y);
    if k == placements.len() - 1 {
        lemma_stamped_pointwise(before, last.mask->0, last.x, last.y, channel, x, y);
    } else {
        assert(front[k] == placements[k]);
        assert forall|j: int| k < j < front.len() implies !((#[trigger] front[j]).mask is Some
            && front[j].mask->0.covers(front[j].x, front[j].y, x, y)) by {
            assert(front[j] == placements[j]);
        }
        lemma_stamp_all_last_wins(canvas, front, channel, x, y, k);
        assert(placements[placements.len() - 1] == last);
        if last.mask is Some {
            lemma_stamped_pointwise(before, last.mask->0, last.x, last.y, channel, x, y);
        }
    }
}

/// Drawing one more placement after the first `n`.
pub proof fn lemma_stamp_all_step(
    canvas: PixelGrid,
    placements: Seq<Placement>,
    channel: Channel,
    n: int,
)
    requires
        0 <= n < placements.len(),
    ensures
        stamp_all(canvas, placements.take(n + 1), channel) == (match placements[n].mask {
            Some(mask) => stamped(
                stamp_all(canvas, placements.take(n), channel),
                mask,
                placements[n].x,
                placements[n].y,
                channel,
            ),
            None => stamp_all(canvas, placements.take(n), channel),
        }),
{
    assert(placements.take(n + 1).drop_last() =~= placements.take(n));
    assert(placements.take(n + 1).last() == placements[n]);
}

/// A cell count times a cell size stays far inside the range of origins.
proof fn lemma_cell_offset_bound(count: usize, size: u32)
    ensures
        0 <= count * size <= 0x1_0000_0000_0000_0000_0000_0000,
{
    assert(0 <= count * size <= 0x1_0000_0000_0000_0000_0000_0000) by (nonlinear_arith)
        requires
            0 <= count <= 0x1_0000_0000_0000_0000,
            0 <= size <= 0x1_0000_0000,
    ;
}

/// Draws every cell of the grid with the font's glyph for its symbol, into
/// one channel of the canvas. A symbol without a glyph leaves its cell as it
/// was; glyph pixels outside the canvas are dropped.
pub fn render_art_grid(canvas: &mut PixelBuffer, grid: &ArtGrid, font: &FontAsset, channel: Channel)
    requires
        old(canvas).wf(),
        grid.wf(),
        font.wf(),
    ensures
        final(canvas).wf(),
        final(canvas)@ == stamp_all(old(canvas)@, grid_placements(grid@, font@), channel),
        final(canvas)@.width == old(canvas)@.width,
        final(canvas)@.height == old(canvas)@.height,
{
    let rows = grid.rows();
    let cols = grid.cols();
    let cell_width = font.cell_width();
    let cell_height = font.cell_height();
    let ascent = font.ascent();
    let ghost start = canvas@;
    let ghost places = grid_placements(grid@, font@);
    proof {
        lemma_stamp_all_keeps_size(start, places, channel);
        assert(places.take(0) =~= Seq::<Placement>::empty());
    }
    let mut row: usize = 0;
    while row < rows
        invariant
            row <= rows,
            rows == grid@.rows,
            cols == grid@.cols,
            cell_width == font@.cell_width,
            cell_height == font@.cell_height,
            ascent == font@.ascent,
            grid.wf(),
            font.wf(),
            canvas.wf(),
            places == grid_placements(grid@, font@),
            0 <= row * cols <= rows * cols,
            canvas@ == stamp_all(start, places.take(row * cols), channel),
        decreases rows - row,
    {
        proof {
            lemma_cell_offset_bound(row, cell_height);
            let (r, n, c) = (row as int, rows as int, cols as int);
            assert(r * c + c <= n * c) by (nonlinear_arith)
                requires
                    0 <= r < n,
                    0 <= c,
            ;
        }
        let oy: i128 = (row as i128) * (cell_height as i128) + (ascent as i128);
        let mut col: usize = 0;
        while col < cols
            invariant
                col <= cols,
                row < rows,
                rows == grid@.rows,
                cols == grid@.cols,
                cell_width == font@.cell_width,
                cell_height == font@.cell_height,
                oy == row * cell_height + font@.ascent,
                -ORIGIN_LIMIT <= oy <= ORIGIN_LIMIT,
                grid.wf(),
                font.wf(),
                canvas.wf(),
                places == grid_placements(grid@, font@),
                0 <= row * cols,
                row * cols + cols <= rows * cols,
                canvas@ == stamp_all(start, places.take(row * cols + col), channel),
            decreases cols - col,
        {
            let ghost k = row * cols + col;
            let symbol = grid.symbol_at(row, col);
            proof {
                lemma_cell_offset_bound(col, cell_width);
            }
            let ox: i128 = (col as i128) * (cell_width as i128);
            proof {
                vstd::arithmetic::div_mod::lemma_fundamental_div_mod_converse(
                    k,
                    cols as int,
                    row as int,
                    col as int,
                );
                lemma_stamp_all_step(start, places, channel, k);
                assert(places[k].mask == font@.glyph_for(symbol));
                assert(places[k].x == ox);
                assert(places[k].y == oy);
            }
            match font.glyph(symbol) {
                Some(mask) => {
                    blend_at(canvas, mask, ox, oy, channel);
                },
                None => {},
            }
            col += 1;
        }
        proof {
            let (r, c) = (row as int, cols as int);
            assert((r + 1) * c == r * c + c) by (nonlinear_arith);
        }
        row += 1;
    }
    proof {
        assert(places.take(rows * cols) =~= places);
    }
}

/// A black canvas of the given size with the grid drawn on it in green.
pub fn create_ascii_image(grid: &ArtGrid, font: &FontAsset, width: usize, height: usize) -> (canvas:
    PixelBuffer)
    requires
        grid.wf(),
        font.wf(),
        width * height * 3 <= usize::MAX,
    ensures
        canvas.wf(),
        canvas@ == stamp_all(
            PixelGrid::uniform(width as nat, height as nat, black()),
            grid_placements(grid@, font@),
            Channel::Green,
        ),
        canvas@.width == width,
        canvas@.height == height,
{
    let mut canvas = PixelBuffer::filled(width, height, Rgb::black());
    render_art_grid(&mut canvas, grid, font, Channel::Green);
    canvas
}

/// Draws a line of text into one channel of the canvas, left to right with
/// a fixed advance, the top of the line at `y` and its first origin at `x`.
/// A character without a glyph leaves a gap; glyph pixels outside the canvas
/// are dropped.
pub fn render_text(
    canvas: &mut PixelBuffer,
    text: &str,
    x: i64,
    y: i64,
    advance: u32,
    font: &FontAsset,
    channel: Channel,
)
    requires
        old(canvas).wf(),
        font.wf(),
    ensures
        final(canvas).wf(),
        final(canvas)@ == stamp_all(
            old(canvas)@,
            text_placements(text@, font@, x as int, y as int, advance as nat),
            channel,
        ),
        final(canvas)@.width == old(canvas)@.width,
        final(canvas)@.height == old(canvas)@.height,
{
    let count = text.unicode_len();
    let oy: i128 = (y as i128) + (font.ascent() as i128);
    let ghost start = canvas@;
    let ghost places = text_placements(text@, font@, x as int, y as int, advance as nat);
    proof {
        lemma_stamp_all_keeps_size(start, places, channel);
        assert(places.take(0) =~= Seq::<Placement>::empty());
    }
    let mut i: usize = 0;
    while i < count
        invariant
            i <= count,
            count == text@.len(),
            oy == y + font@.ascent,
            -ORIGIN_LIMIT <= oy <= ORIGIN_LIMIT,
            font.wf(),
            canvas.wf(),
            places == text_placements(text@, font@, x as int, y as int, advance as nat),
            canvas@ == stamp_all(start, places.take(i as int), channel),
        decreases count - i,
    {
        let c = text.get_char(i);
        proof {
            lemma_cell_offset_bound(i, advance);
            lemma_stamp_all_step(start, places, channel, i as int);
        }
        let ox: i128 = (x as i128) + (i as i128) * (advance as i128);
        match font.glyph(c) {
            Some(mask) => {
                blend_at(canvas, mask, ox, oy, channel);
            },
            None => {},
        }
        i += 1;
    }
    proof {
        assert(places.take(count as int) =~= places);
    }
}

} // verus!
