use asciicam::art::ArtGrid;
use asciicam::font::FontAsset;
use asciicam::glyph::{blend_glyph, GlyphMask};
use asciicam::pixels::{Channel, PixelBuffer, Rgb};
use asciicam::render::{create_ascii_image, render_art_grid, render_text};

fn rgb(r: u8, g: u8, b: u8) -> Rgb {
    Rgb { r, g, b }
}

/// A 2 x 2 mask whose box starts one row above the baseline.
fn square(a: u8, b: u8, c: u8, d: u8) -> GlyphMask {
    GlyphMask::new(0, -1, 2, 2, vec![a, b, c, d]).unwrap()
}

fn font() -> FontAsset {
    let mut font = FontAsset::new(1, -1, 3);
    font.add_glyph('#', square(10, 20, 30, 40));
    font.add_glyph('.', GlyphMask::new(1, 0, 1, 1, vec![200]).unwrap());
    font
}

#[test]
fn mask_wants_one_byte_per_pixel() {
    assert!(GlyphMask::new(0, 0, 2, 3, vec![0; 6]).is_some());
    assert!(GlyphMask::new(0, 0, 2, 3, vec![0; 5]).is_none());
    assert!(GlyphMask::new(0, 0, usize::MAX, 2, vec![]).is_none());
    let mask = GlyphMask::new(-3, 4, 2, 1, vec![7, 8]).unwrap();
    assert_eq!((mask.left(), mask.top(), mask.width(), mask.height()), (-3, 4, 2, 1));
    assert_eq!(mask.coverage_at(1, 0), 8);
}

#[test]
fn blend_replaces_one_channel_and_keeps_the_others() {
    let mut canvas = PixelBuffer::filled(4, 3, rgb(5, 6, 7));
    blend_glyph(&mut canvas, &square(10, 0, 30, 255), 1, 1, Channel::Red);
    // The box covers columns 1..3 and rows 0..2.
    assert_eq!(canvas.pixel_at(1, 0), rgb(10, 6, 7));
    assert_eq!(canvas.pixel_at(2, 0), rgb(0, 6, 7));
    assert_eq!(canvas.pixel_at(1, 1), rgb(30, 6, 7));
    assert_eq!(canvas.pixel_at(2, 1), rgb(255, 6, 7));
    for (x, y) in [(0, 0), (3, 0), (0, 1), (3, 1), (0, 2), (1, 2), (2, 2), (3, 2)] {
        assert_eq!(canvas.pixel_at(x, y), rgb(5, 6, 7));
    }
}

#[test]
fn glyph_past_the_canvas_edge_is_clipped() {
    let mut canvas = PixelBuffer::filled(3, 3, rgb(0, 0, 0));
    // Columns 2..4 and rows 2..4: only (2, 2) is on the canvas.
    blend_glyph(&mut canvas, &square(10, 20, 30, 40), 2, 3, Channel::Green);
    assert_eq!(canvas.width(), 3);
    assert_eq!(canvas.height(), 3);
    assert_eq!(canvas.as_bytes().len(), 27);
    assert_eq!(canvas.pixel_at(2, 2), rgb(0, 10, 0));
    let lit = canvas.as_bytes().iter().filter(|b| **b != 0).count();
    assert_eq!(lit, 1);
}

#[test]
fn glyph_before_the_canvas_origin_is_clipped() {
    let mut canvas = PixelBuffer::filled(3, 3, rgb(0, 0, 0));
    // Columns -1..1 and rows -1..1: only (0, 0) is on the canvas.
    blend_glyph(&mut canvas, &square(10, 20, 30, 40), -1, 0, Channel::Green);
    assert_eq!(canvas.pixel_at(0, 0), rgb(0, 40, 0));
    let lit = canvas.as_bytes().iter().filter(|b| **b != 0).count();
    assert_eq!(lit, 1);
}

#[test]
fn glyph_far_away_leaves_the_canvas_alone() {
    let mut canvas = PixelBuffer::filled(3, 3, rgb(1, 2, 3));
    let before = canvas.as_bytes().to_vec();
    blend_glyph(&mut canvas, &square(10, 20, 30, 40), i64::MAX, i64::MIN, Channel::Blue);
    assert_eq!(canvas.as_bytes(), &before[..]);
}

#[test]
fn font_returns_the_first_glyph_added_for_a_symbol() {
    let mut font = font();
    font.add_glyph('#', GlyphMask::new(0, 0, 1, 1, vec![99]).unwrap());
    assert_eq!(font.glyph_count(), 3);
    assert_eq!(font.glyph('#').unwrap().width(), 2);
    assert_eq!(font.glyph('.').unwrap().coverage_at(0, 0), 200);
    assert!(font.glyph('x').is_none());
    assert_eq!((font.ascent(), font.cell_width(), font.cell_height()), (1, 3, 2));
}

#[test]
fn cells_are_laid_out_from_the_vertical_metrics() {
    let font = FontAsset::new(15, -4, 16);
    assert_eq!((font.ascent(), font.cell_width(), font.cell_height()), (15, 16, 19));
    let font = FontAsset::new(-3, 2, 5);
    assert_eq!((font.ascent(), font.cell_width(), font.cell_height()), (-3, 5, 0));
    let font = FontAsset::new(i32::MAX, i32::MIN, u32::MAX);
    assert_eq!(font.cell_height(), u32::MAX);
    assert_eq!(font.glyph_count(), 0);
}

#[test]
fn grid_cells_are_placed_by_column_and_row() {
    let font = font();
    let grid = ArtGrid::new(2, 2, vec!['#', '.', '?', '#']).unwrap();
    let canvas = create_ascii_image(&grid, &font, 6, 4);
    assert_eq!(canvas.width(), 6);
    assert_eq!(canvas.height(), 4);
    let mut expected = vec![0u8; 6 * 4 * 3];
    let mut put = |x: usize, y: usize, v: u8| expected[(y * 6 + x) * 3 + 1] = v;
    // Cell (0, 0): origin (0, 1); the box covers columns 0..2, rows 0..2.
    put(0, 0, 10);
    put(1, 0, 20);
    put(0, 1, 30);
    put(1, 1, 40);
    // Cell (0, 1): origin (3, 1); the dot lies one column to the right.
    put(4, 1, 200);
    // Cell (1, 0) has no glyph. Cell (1, 1): origin (3, 3).
    put(3, 2, 10);
    put(4, 2, 20);
    put(3, 3, 30);
    put(4, 3, 40);
    assert_eq!(canvas.as_bytes(), &expected[..]);
}

#[test]
fn grid_larger_than_the_canvas_is_clipped() {
    let font = font();
    let grid = ArtGrid::new(3, 3, vec!['#'; 9]).unwrap();
    let mut canvas = PixelBuffer::filled(4, 3, rgb(0, 0, 0));
    render_art_grid(&mut canvas, &grid, &font, Channel::Green);
    assert_eq!(canvas.width(), 4);
    assert_eq!(canvas.height(), 3);
    assert_eq!(canvas.as_bytes().len(), 36);
    assert_eq!(canvas.pixel_at(3, 0), rgb(0, 10, 0));
    assert_eq!(canvas.pixel_at(3, 2), rgb(0, 10, 0));
    assert_eq!(canvas.pixel_at(2, 2), rgb(0, 0, 0));
}

#[test]
fn later_glyph_overwrites_an_earlier_one() {
    let mut font = FontAsset::new(0, -1, 1);
    font.add_glyph('a', GlyphMask::new(0, 0, 2, 1, vec![50, 60]).unwrap());
    font.add_glyph('b', GlyphMask::new(0, 0, 2, 1, vec![0, 70]).unwrap());
    let grid = ArtGrid::new(1, 2, vec!['a', 'b']).unwrap();
    let mut canvas = PixelBuffer::filled(3, 1, rgb(9, 9, 9));
    render_art_grid(&mut canvas, &grid, &font, Channel::Blue);
    assert_eq!(canvas.as_bytes(), &[9, 9, 50, 9, 9, 0, 9, 9, 70][..]);
}

#[test]
fn text_advances_by_a_fixed_step() {
    let font = font();
    let mut canvas = PixelBuffer::filled(8, 3, rgb(1, 2, 3));
    render_text(&mut canvas, ".x.", 0, 0, 3, &font, Channel::Red);
    let mut expected = PixelBuffer::filled(8, 3, rgb(1, 2, 3));
    // Origins at columns 0, 3 and 6 on the baseline in row 1; the dot lies
    // one column to the right of its origin; `x` has no glyph.
    expected.set_channel_at(1, 1, Channel::Red, 200);
    expected.set_channel_at(7, 1, Channel::Red, 200);
    assert_eq!(canvas.as_bytes(), expected.as_bytes());
}

#[test]
fn text_that_runs_off_the_canvas_is_clipped() {
    let font = font();
    let mut canvas = PixelBuffer::filled(4, 2, rgb(0, 0, 0));
    render_text(&mut canvas, "####", 1, 0, 2, &font, Channel::Red);
    assert_eq!(canvas.width(), 4);
    assert_eq!(canvas.height(), 2);
    // Glyph i covers columns 1 + 2i and 2 + 2i, rows 0 and 1.
    assert_eq!(canvas.as_bytes(), &[
        0, 0, 0, 10, 0, 0, 20, 0, 0, 10, 0, 0,
        0, 0, 0, 30, 0, 0, 40, 0, 0, 30, 0, 0,
    ][..]);
}
