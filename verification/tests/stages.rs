use asciicam::art::{convert_to_ascii, ArtGrid};
use asciicam::filter::{apply_blue_mask, ChannelRange, ColorFilter};
use asciicam::luma::{luminance, pixel_luma, IntensityBuffer};
use asciicam::pixels::{buffer_len, Channel, PixelBuffer, Rgb};
use asciicam::ramp::{convert_pixel_to_ascii, SymbolRamp};
use asciicam::resample::resample;
use asciicam::error::ConfigError;

fn rgb(r: u8, g: u8, b: u8) -> Rgb {
    Rgb { r, g, b }
}

fn gradient(width: usize, height: usize) -> PixelBuffer {
    let mut data = Vec::new();
    for y in 0..height {
        for x in 0..width {
            data.push((10 * x) as u8);
            data.push((10 * y) as u8);
            data.push((x + y) as u8);
        }
    }
    PixelBuffer::from_raw(width, height, data).unwrap()
}

#[test]
fn buffer_len_is_three_bytes_per_pixel() {
    assert_eq!(buffer_len(4, 5), Some(60));
    assert_eq!(buffer_len(0, 7), Some(0));
    assert_eq!(buffer_len(usize::MAX, 2), None);
    assert_eq!(buffer_len(usize::MAX / 3 + 1, 1), None);
}

#[test]
fn filled_buffer_repeats_the_colour() {
    let buf = PixelBuffer::filled(3, 2, rgb(1, 2, 3));
    assert_eq!(buf.width(), 3);
    assert_eq!(buf.height(), 2);
    assert_eq!(buf.as_bytes(), &[1, 2, 3, 1, 2, 3, 1, 2, 3, 1, 2, 3, 1, 2, 3, 1, 2, 3][..]);
}

#[test]
fn from_raw_wants_the_exact_length() {
    assert!(PixelBuffer::from_raw(2, 2, vec![0; 12]).is_some());
    assert!(PixelBuffer::from_raw(2, 2, vec![0; 11]).is_none());
    assert!(PixelBuffer::from_raw(2, 2, vec![0; 13]).is_none());
    assert!(PixelBuffer::from_raw(0, 5, vec![]).is_some());
}

#[test]
fn pixels_are_row_major() {
    let buf = gradient(3, 2);
    assert_eq!(buf.offset(2, 1), 15);
    assert_eq!(buf.pixel_at(2, 1), rgb(20, 10, 3));
    assert_eq!(buf.get_pixel(0, 1), Some(rgb(0, 10, 1)));
    assert_eq!(buf.get_pixel(3, 0), None);
    assert_eq!(buf.get_pixel(0, 2), None);
}

#[test]
fn setters_touch_one_pixel() {
    let mut buf = PixelBuffer::filled(2, 2, rgb(9, 9, 9));
    buf.set_pixel_at(1, 0, rgb(1, 2, 3));
    buf.set_channel_at(0, 1, Channel::Blue, 77);
    assert_eq!(buf.into_raw(), vec![9, 9, 9, 1, 2, 3, 9, 9, 77, 9, 9, 9]);
}

#[test]
fn channel_positions() {
    assert_eq!(Channel::Red.position(), 0);
    assert_eq!(Channel::Green.position(), 1);
    assert_eq!(Channel::Blue.position(), 2);
}

#[test]
fn filter_blackens_pixels_inside_all_three_ranges() {
    let filter = ColorFilter::blue();
    let mut buf = PixelBuffer::from_raw(
        4,
        1,
        vec![
            0, 0, 255, // inside
            120, 100, 100, // on every upper or lower end: inside
            121, 100, 100, // red one past its upper end
            50, 50, 99, // blue one below its lower end
        ],
    )
    .unwrap();
    filter.apply(&mut buf);
    assert_eq!(buf.pixel_at(0, 0), rgb(0, 0, 0));
    assert_eq!(buf.pixel_at(1, 0), rgb(0, 0, 0));
    assert_eq!(buf.pixel_at(2, 0), rgb(121, 100, 100));
    assert_eq!(buf.pixel_at(3, 0), rgb(50, 50, 99));
}

#[test]
fn filter_ends_are_inclusive_on_each_channel() {
    let filter = ColorFilter {
        red: ChannelRange { lo: 10, hi: 20 },
        green: ChannelRange { lo: 30, hi: 40 },
        blue: ChannelRange { lo: 50, hi: 60 },
    };
    assert!(filter.accepts(rgb(10, 30, 50)));
    assert!(filter.accepts(rgb(20, 40, 60)));
    assert!(!filter.accepts(rgb(9, 30, 50)));
    assert!(!filter.accepts(rgb(21, 30, 50)));
    assert!(!filter.accepts(rgb(10, 29, 50)));
    assert!(!filter.accepts(rgb(10, 41, 50)));
    assert!(!filter.accepts(rgb(10, 30, 49)));
    assert!(!filter.accepts(rgb(10, 30, 61)));
    assert!(filter.red.holds(10) && filter.red.holds(20) && !filter.red.holds(21));
}

#[test]
fn filter_leaves_pixels_outside_one_range_unchanged() {
    let filter = ColorFilter::blue();
    let mut buf = gradient(5, 4);
    let before = buf.as_bytes().to_vec();
    filter.apply(&mut buf);
    // No pixel of the gradient has blue of 100 or more.
    assert_eq!(buf.as_bytes(), &before[..]);
}

#[test]
fn resample_has_exactly_the_target_size() {
    let src = gradient(7, 5);
    for (w, h) in [(1, 1), (3, 2), (7, 5), (14, 9), (0, 4), (4, 0)] {
        let out = resample(&src, w, h);
        assert_eq!(out.width(), w);
        assert_eq!(out.height(), h);
        assert_eq!(out.as_bytes().len(), w * h * 3);
    }
}

#[test]
fn resample_to_own_size_is_identity() {
    let src = gradient(7, 5);
    let out = resample(&src, 7, 5);
    assert_eq!(out.as_bytes(), src.as_bytes());
}

#[test]
fn resample_takes_floor_of_scaled_coordinates() {
    let src = gradient(4, 4);
    let out = resample(&src, 2, 2);
    // (x, y) of the target samples (floor(x * 4 / 2), floor(y * 4 / 2)).
    assert_eq!(out.pixel_at(0, 0), src.pixel_at(0, 0));
    assert_eq!(out.pixel_at(1, 0), src.pixel_at(2, 0));
    assert_eq!(out.pixel_at(0, 1), src.pixel_at(0, 2));
    assert_eq!(out.pixel_at(1, 1), src.pixel_at(2, 2));
    let out = resample(&src, 3, 1);
    // floor(0 * 4 / 3) = 0, floor(1 * 4 / 3) = 1, floor(2 * 4 / 3) = 2
    assert_eq!(out.pixel_at(2, 0), src.pixel_at(2, 0));
}

#[test]
fn resample_upsamples_by_repeating() {
    let src = gradient(2, 1);
    let out = resample(&src, 5, 2);
    // floor(x * 2 / 5) for x = 0..5 is 0, 0, 0, 1, 1
    let cols = [0, 0, 0, 1, 1];
    for y in 0..2 {
        for x in 0..5 {
            assert_eq!(out.pixel_at(x, y), src.pixel_at(cols[x], 0));
        }
    }
}

#[test]
fn resample_of_an_empty_source_is_black() {
    let src = PixelBuffer::from_raw(0, 0, vec![]).unwrap();
    let out = resample(&src, 2, 2);
    assert_eq!(out.as_bytes(), &[0u8; 12][..]);
}

#[test]
fn luma_weights_and_rounding() {
    assert_eq!(pixel_luma(rgb(255, 255, 255)), 255);
    assert_eq!(pixel_luma(rgb(0, 0, 0)), 0);
    // 2126 * 255 = 542130, + 5000 = 547130, / 10000 = 54
    assert_eq!(pixel_luma(rgb(255, 0, 0)), 54);
    // 7152 * 255 = 1823760, + 5000, / 10000 = 182
    assert_eq!(pixel_luma(rgb(0, 255, 0)), 182);
    // 722 * 255 = 184110, + 5000, / 10000 = 18
    assert_eq!(pixel_luma(rgb(0, 0, 255)), 18);
    // 2126 * 100 + 7152 * 50 + 722 * 200 = 714600: rounds up to 71
    assert_eq!(pixel_luma(rgb(100, 50, 200)), 71);
    // 722 * 7 = 5054: rounds up to 1; 722 * 6 = 4332: rounds down to 0
    assert_eq!(pixel_luma(rgb(0, 0, 7)), 1);
    assert_eq!(pixel_luma(rgb(0, 0, 6)), 0);
}

#[test]
fn luminance_of_white_is_255_and_of_black_is_0() {
    let white = PixelBuffer::filled(5, 3, rgb(255, 255, 255));
    let out = luminance(&white);
    assert_eq!(out.width(), 5);
    assert_eq!(out.height(), 3);
    assert_eq!(out.as_bytes(), &[255u8; 15][..]);
    let dark = PixelBuffer::filled(5, 3, rgb(0, 0, 0));
    assert_eq!(luminance(&dark).as_bytes(), &[0u8; 15][..]);
}

#[test]
fn luminance_keeps_pixel_order() {
    let buf = PixelBuffer::from_raw(2, 2, vec![255, 0, 0, 0, 255, 0, 0, 0, 255, 255, 255, 255])
        .unwrap();
    let out = luminance(&buf);
    assert_eq!(out.as_bytes(), &[54, 182, 18, 255][..]);
    assert_eq!(out.value_at(1, 0), 182);
    assert_eq!(out.get(0, 1), Some(18));
    assert_eq!(out.get(2, 0), None);
}

#[test]
fn intensity_buffer_wants_the_exact_length() {
    assert!(IntensityBuffer::from_raw(3, 2, vec![0; 6]).is_some());
    assert!(IntensityBuffer::from_raw(3, 2, vec![0; 5]).is_none());
}

#[test]
fn ramp_needs_two_distinct_symbols() {
    assert_eq!(SymbolRamp::new(vec![]).err(), Some(ConfigError::RampTooShort));
    assert_eq!(SymbolRamp::new(vec!['a']).err(), Some(ConfigError::RampTooShort));
    assert_eq!(SymbolRamp::new(vec!['a', 'a']).err(), Some(ConfigError::RampRepeatsSymbol));
    assert_eq!(SymbolRamp::new(vec!['a', 'b', 'a']).err(), Some(ConfigError::RampRepeatsSymbol));
    assert!(SymbolRamp::new(vec!['a', 'b']).is_ok());
}

#[test]
fn ramp_index_is_floor_of_scaled_intensity() {
    let ramp = SymbolRamp::standard();
    assert_eq!(ramp.len(), 17);
    assert_eq!(ramp.index_for(0), 0);
    assert_eq!(ramp.index_for(255), 16);
    // 15 * 16 / 255 = 0, 16 * 16 / 255 = 1
    assert_eq!(ramp.index_for(15), 0);
    assert_eq!(ramp.index_for(16), 1);
    // 254 * 16 / 255 = 15
    assert_eq!(ramp.index_for(254), 15);
    // 128 * 16 / 255 = 8
    assert_eq!(ramp.index_for(128), 8);
    assert_eq!(ramp.symbol_for(0), ' ');
    assert_eq!(ramp.symbol_for(128), 'x');
    assert_eq!(ramp.symbol_for(255), 'N');
    assert_eq!(ramp.symbol(2), Some('\''));
    assert_eq!(ramp.symbol(17), None);
}

#[test]
fn ramp_index_never_decreases() {
    for symbols in [vec!['a', 'b'], vec!['a', 'b', 'c'], vec!['0', '1', '2', '3', '4', '5', '6']] {
        let n = symbols.len();
        let ramp = SymbolRamp::new(symbols).unwrap();
        let mut last = 0;
        for i in 0..=255u8 {
            let index = ramp.index_for(i);
            assert!(index >= last);
            assert!(index < n);
            assert_eq!(index, i as usize * (n - 1) / 255);
            last = index;
        }
        assert_eq!(ramp.index_for(0), 0);
        assert_eq!(ramp.index_for(255), n - 1);
    }
}

#[test]
fn art_grid_has_the_intensity_buffers_dimensions() {
    let ramp = SymbolRamp::new(vec![' ', '+', '#']).unwrap();
    let buf = IntensityBuffer::from_raw(3, 2, vec![0, 127, 128, 254, 255, 1]).unwrap();
    let grid = ArtGrid::from_intensity(&buf, &ramp);
    assert_eq!(grid.rows(), 2);
    assert_eq!(grid.cols(), 3);
    // 127 * 2 / 255 = 0, 128 * 2 / 255 = 1, 254 * 2 / 255 = 1, 255 -> 2
    assert_eq!(grid.row(0), vec![' ', ' ', '+']);
    assert_eq!(grid.row(1), vec!['+', '#', ' ']);
    assert_eq!(grid.row(2), Vec::<char>::new());
    assert_eq!(grid.symbol_at(1, 1), '#');
    assert_eq!(grid.get(0, 2), Some('+'));
    assert_eq!(grid.get(2, 0), None);
    assert_eq!(grid.get(0, 3), None);
}

#[test]
fn art_grid_wants_the_exact_length() {
    assert!(ArtGrid::new(2, 3, vec!['a'; 6]).is_some());
    assert!(ArtGrid::new(2, 3, vec!['a'; 7]).is_none());
}

#[test]
fn blue_frame_becomes_a_grid_of_the_first_symbol() {
    let mut frame = PixelBuffer::filled(4, 4, rgb(0, 0, 255));
    ColorFilter::blue().apply(&mut frame);
    assert_eq!(frame.as_bytes(), &[0u8; 48][..]);
    let small = resample(&frame, 2, 2);
    assert_eq!(small.width(), 2);
    assert_eq!(small.height(), 2);
    assert_eq!(small.as_bytes(), &[0u8; 12][..]);
    let intensities = luminance(&small);
    assert_eq!(intensities.as_bytes(), &[0u8; 4][..]);
    let ramp = SymbolRamp::new(vec!['a', 'b', 'c']).unwrap();
    let grid = ArtGrid::from_intensity(&intensities, &ramp);
    assert_eq!(grid.rows(), 2);
    assert_eq!(grid.cols(), 2);
    assert_eq!(grid.row(0), vec!['a', 'a']);
    assert_eq!(grid.row(1), vec!['a', 'a']);
}

#[test]
fn standard_stages_use_the_standard_filter_and_ramp() {
    let mut frame = PixelBuffer::from_raw(2, 1, vec![120, 100, 100, 121, 100, 100]).unwrap();
    apply_blue_mask(&mut frame);
    assert_eq!(frame.as_bytes(), &[0, 0, 0, 121, 100, 100][..]);
    assert_eq!(convert_pixel_to_ascii(0), ' ');
    assert_eq!(convert_pixel_to_ascii(16), '.');
    assert_eq!(convert_pixel_to_ascii(200), 'd');
    assert_eq!(convert_pixel_to_ascii(255), 'N');
    let buf = IntensityBuffer::from_raw(2, 2, vec![0, 64, 128, 255]).unwrap();
    let grid = convert_to_ascii(&buf);
    // 64 * 16 / 255 = 4, 128 * 16 / 255 = 8
    assert_eq!(grid.row(0), vec![' ', ':']);
    assert_eq!(grid.row(1), vec!['x', 'N']);
}
