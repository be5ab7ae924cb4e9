use asciicam::config::{Geometry, PipelineConfig, RenderMode, Resolution, SinkKind};
use asciicam::decode::decode_frame;
use asciicam::filter::{ChannelRange, ColorFilter};
use asciicam::font::FontAsset;
use asciicam::glyph::GlyphMask;
use asciicam::error::PipelineError;
use asciicam::pipeline::{frame_to_art, process_capture, produce_frame, Overlay};
use asciicam::pixels::{PixelBuffer, Rgb};
use asciicam::sink::StreamSink;

fn size(width: usize, height: usize) -> Resolution {
    Resolution { width, height }
}

fn config(render: RenderMode) -> PipelineConfig {
    let geometry = Geometry {
        capture: size(4, 4),
        output: size(6, 4),
        grid: size(2, 2),
        font_scale: 2,
        frame_rate: 10,
    };
    PipelineConfig::new(geometry, vec![' ', '+', '#'], render, SinkKind::Stream, None).unwrap()
}

fn font() -> FontAsset {
    let mut font = FontAsset::new(1, -1, 3);
    font.add_glyph('#', GlyphMask::new(0, -1, 2, 2, vec![10, 20, 30, 40]).unwrap());
    font.add_glyph('+', GlyphMask::new(1, 0, 1, 1, vec![200]).unwrap());
    font
}

fn overlay() -> Overlay<'static> {
    Overlay { text: "+#", x: 0, y: 0, advance: 2 }
}

/// Left half white, right half blue.
fn frame() -> PixelBuffer {
    let mut data = Vec::new();
    for _y in 0..4 {
        for x in 0..4 {
            data.extend_from_slice(if x < 2 { &[255, 255, 255] } else { &[0, 0, 255] });
        }
    }
    PixelBuffer::from_raw(4, 4, data).unwrap()
}

#[test]
fn frame_becomes_a_grid_of_symbols() {
    let mut frame = frame();
    let grid = frame_to_art(&config(RenderMode::Art), &mut frame);
    assert_eq!((grid.rows(), grid.cols()), (2, 2));
    assert_eq!(grid.row(0), vec!['#', ' ']);
    assert_eq!(grid.row(1), vec!['#', ' ']);
    // The frame itself was filtered in place.
    assert_eq!(frame.pixel_at(3, 3), Rgb { r: 0, g: 0, b: 0 });
    assert_eq!(frame.pixel_at(0, 0), Rgb { r: 255, g: 255, b: 255 });
}

#[test]
fn art_frame_is_green_on_black_at_the_output_size() {
    let canvas = produce_frame(&config(RenderMode::Art), &overlay(), &font(), frame());
    assert_eq!((canvas.width(), canvas.height()), (6, 4));
    let mut expected = vec![0u8; 6 * 4 * 3];
    let mut put = |x: usize, y: usize, v: u8| expected[(y * 6 + x) * 3 + 1] = v;
    put(0, 0, 10);
    put(1, 0, 20);
    put(0, 1, 30);
    put(1, 1, 40);
    put(0, 2, 10);
    put(1, 2, 20);
    put(0, 3, 30);
    put(1, 3, 40);
    assert_eq!(canvas.as_bytes(), &expected[..]);
}

#[test]
fn overlay_frame_is_the_frame_with_red_text() {
    let canvas = produce_frame(&config(RenderMode::Overlay), &overlay(), &font(), frame());
    assert_eq!((canvas.width(), canvas.height()), (4, 4));
    let mut expected = frame();
    // '+' at origin (0, 1): its dot lies at (1, 1).
    expected.set_pixel_at(1, 1, Rgb { r: 200, g: 255, b: 255 });
    // '#' at origin (2, 1): columns 2..4, rows 0..2.
    expected.set_pixel_at(2, 0, Rgb { r: 10, g: 0, b: 255 });
    expected.set_pixel_at(3, 0, Rgb { r: 20, g: 0, b: 255 });
    expected.set_pixel_at(2, 1, Rgb { r: 30, g: 0, b: 255 });
    expected.set_pixel_at(3, 1, Rgb { r: 40, g: 0, b: 255 });
    assert_eq!(canvas.as_bytes(), expected.as_bytes());
}

#[test]
fn another_filter_changes_what_is_suppressed() {
    let everything = ChannelRange { lo: 0, hi: 255 };
    let filter = ColorFilter { red: everything, green: everything, blue: everything };
    let config = config(RenderMode::Art).with_filter(filter);
    let mut frame = frame();
    let grid = frame_to_art(&config, &mut frame);
    assert_eq!(grid.row(0), vec![' ', ' ']);
    assert_eq!(frame.as_bytes(), &[0u8; 48][..]);
}

#[test]
fn rendered_frame_fits_the_sink() {
    let config = config(RenderMode::Art);
    let mut sink = StreamSink::new(config.canvas_size(), config.geometry().frame_rate);
    sink.open(true).unwrap();
    let canvas = produce_frame(&config, &overlay(), &font(), frame());
    let bytes = sink.frame_bytes(&canvas).unwrap();
    assert_eq!(bytes.len(), 6 * 4 * 3);
}

fn jpeg(width: u32, height: u32, color: [u8; 3]) -> Vec<u8> {
    let mut pixels = Vec::new();
    for _ in 0..width * height {
        pixels.extend_from_slice(&color);
    }
    let mut out = Vec::new();
    image::codecs::jpeg::JpegEncoder::new_with_quality(&mut out, 100)
        .encode(&pixels, width, height, image::ExtendedColorType::Rgb8)
        .unwrap();
    out
}

#[test]
fn captured_white_frame_renders_the_last_symbol_everywhere() {
    let bytes = jpeg(4, 4, [255, 255, 255]);
    let canvas = process_capture(&config(RenderMode::Art), &overlay(), &font(), &bytes).unwrap();
    assert_eq!((canvas.width(), canvas.height()), (6, 4));
    let mut expected = vec![0u8; 6 * 4 * 3];
    for (x, y, v) in [(0, 0, 10), (1, 0, 20), (0, 1, 30), (1, 1, 40)] {
        for (dx, dy) in [(0, 0), (3, 0), (0, 2), (3, 2)] {
            expected[((y + dy) * 6 + x + dx) * 3 + 1] = v;
        }
    }
    assert_eq!(canvas.as_bytes(), &expected[..]);
}

#[test]
fn capture_of_the_wrong_size_is_dropped() {
    let bytes = jpeg(8, 8, [255, 255, 255]);
    let out = process_capture(&config(RenderMode::Art), &overlay(), &font(), &bytes);
    assert_eq!(out.err(), Some(PipelineError::Decode));
    let out = process_capture(&config(RenderMode::Overlay), &overlay(), &font(), b"junk");
    assert_eq!(out.err(), Some(PipelineError::Decode));
}

#[test]
fn captured_overlay_frame_keeps_the_capture_size() {
    let bytes = jpeg(4, 4, [0, 0, 0]);
    let canvas =
        process_capture(&config(RenderMode::Overlay), &overlay(), &font(), &bytes).unwrap();
    assert_eq!((canvas.width(), canvas.height()), (4, 4));
    assert_eq!(canvas.pixel_at(1, 1).r, 200);
    assert_eq!(canvas.pixel_at(3, 1).r, 40);
}

#[test]
fn captured_blue_frame_renders_blank() {
    let mut pixels = Vec::new();
    for _ in 0..16 {
        pixels.extend_from_slice(&[0, 0, 255]);
    }
    let mut jpeg = Vec::new();
    image::codecs::jpeg::JpegEncoder::new_with_quality(&mut jpeg, 100)
        .encode(&pixels, 4, 4, image::ExtendedColorType::Rgb8)
        .unwrap();
    let frame = decode_frame(&jpeg, 4, 4).unwrap();
    let canvas = produce_frame(&config(RenderMode::Art), &overlay(), &font(), frame);
    assert_eq!(canvas.as_bytes(), &[0u8; 72][..]);
}
