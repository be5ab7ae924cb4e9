//! One frame through all stages.

use vstd::prelude::*;
use crate::art::{art_of, lemma_art_pointwise, ArtGrid, ArtShape};
use crate::config::{ConfigShape, PipelineConfig, RenderMode};
use crate::decode::{decode_frame, frame_of, jpeg_image};
use crate::error::PipelineError;
use crate::font::{FontAsset, FontShape};
use crate::luma::{lemma_luminance_pointwise, luminance, luminance_of};
use crate::pixels::{
    black, lemma_offset_bounds, lemma_offset_inverse, Channel, PixelBuffer, PixelGrid,
};
use crate::ramp::ramp_index;
use crate::render::{
    create_ascii_image, grid_placements, lemma_stamp_all_keeps_size, render_text, stamp_all,
    text_placements,
};
use crate::resample::{is_empty, lemma_nearest_bounds, nearest, resample, resampled};
use crate::sink::{SinkShape, SinkState};

verus! {

/// A line of text to draw over each frame.
#[derive(Clone, Copy, Debug)]
pub struct Overlay<'a> {
    pub text: &'a str,
    /// Column of the first character's origin.
    pub x: i64,
    /// Row of the top of the line.
    pub y: i64,
    /// Distance between the origins of neighbouring characters.
    pub advance: u32,
}

/// The symbol grid of a frame: the filtered frame, resampled to the grid's
/// size, reduced to luminance and mapped through the ramp.
pub open spec fn frame_art(config: ConfigShape, frame: PixelGrid) -> ArtShape {
    art_of(
        luminance_of(
            resampled(
                config.filter.filtered(frame),
                config.geometry.grid.width as nat,
                config.geometry.grid.height as nat,
            ),
        ),
        config.symbols,
    )
}

/// The canvas that character art makes of a frame: black, of the output
/// size, with the frame's symbol grid drawn in green.
pub open spec fn art_canvas(config: ConfigShape, font: FontShape, frame: PixelGrid) -> PixelGrid {
    stamp_all(
        PixelGrid::uniform(
            config.geometry.output.width as nat,
            config.geometry.output.height as nat,
            black(),
        ),
        grid_placements(frame_art(config, frame), font),
        Channel::Green,
    )
}

/// The canvas that an overlay makes of a frame: the frame itself with the
/// text drawn in red.
pub open spec fn overlay_canvas(overlay: Overlay, font: FontShape, frame: PixelGrid) -> PixelGrid {
    stamp_all(
        frame,
        text_placements(
            overlay.text@,
            font,
            overlay.x as int,
            overlay.y as int,
            overlay.advance as nat,
        ),
        Channel::Red,
    )
}

/// What the configuration makes of a frame.
pub open spec fn rendered(
    config: ConfigShape,
    overlay: Overlay,
    font: FontShape,
    frame: PixelGrid,
) -> PixelGrid {
    match config.render {
        RenderMode::Art => art_canvas(config, font, frame),
        RenderMode::Overlay => overlay_canvas(overlay, font, frame),
    }
}

/// What the configuration makes of the bytes of a captured frame: the
/// rendering of the decoded frame, or nothing where the bytes do not decode
/// to a frame of the capture size.
pub open spec fn rendered_capture(
    config: ConfigShape,
    overlay: Overlay,
    font: FontShape,
    bytes: Seq<u8>,
) -> Option<PixelGrid> {
    match frame_of(
        jpeg_image(bytes),
        config.geometry.capture.width as nat,
        config.geometry.capture.height as nat,
    ) {
        Some(frame) => Some(rendered(config, overlay, font, frame)),
        None => None,
    }
}

/// A rendered frame of the capture size has the size that the sink of the
/// same configuration tells the encoder, so a streaming sink takes it.
pub proof fn lemma_rendered_fits_sink(
    config: ConfigShape,
    overlay: Overlay,
    font: FontShape,
    frame: PixelGrid,
    sink: SinkShape,
)
    requires
        frame.width == config.geometry.capture.width,
        frame.height == config.geometry.capture.height,
        sink.size == config.canvas_size(),
        sink.state == SinkState::Streaming,
    ensures
        rendered(config, overlay, font, frame).width == config.canvas_size().width,
        rendered(config, overlay, font, frame).height == config.canvas_size().height,
        sink.write_verdict(
            rendered(config, overlay, font, frame).width,
            rendered(config, overlay, font, frame).height,
        ) is Ok,
{
    lemma_stamp_all_keeps_size(
        PixelGrid::uniform(
            config.geometry.output.width as nat,
            config.geometry.output.height as nat,
            black(),
        ),
        grid_placements(frame_art(config, frame), font),
        Channel::Green,
    );
    lemma_stamp_all_keeps_size(
        frame,
        text_placements(
            overlay.text@,
            font,
            overlay.x as int,
            overlay.y as int,
            overlay.advance as nat,
        ),
        Channel::Red,
    );
}

/// A frame in which the filter suppresses every pixel becomes a grid filled
/// with the ramp's first symbol, whatever the grid's size.
pub proof fn lemma_suppressed_frame_is_blank(
    config: ConfigShape,
    frame: PixelGrid,
    row: int,
    col: int,
)
    requires
        frame.wf(),
        forall|x: int, y: int|
            frame.in_bounds(x, y) ==> config.filter.matches(#[trigger] frame.pixel(x, y)),
        frame_art(config, frame).in_bounds(row, col),
    ensures
        frame_art(config, frame).rows == config.geometry.grid.height,
        frame_art(config, frame).cols == config.geometry.grid.width,
        frame_art(config, frame).symbol(row, col) == config.symbols[0],
{
    let width = config.geometry.grid.width as nat;
    let height = config.geometry.grid.height as nat;
    let filtered = config.filter.filtered(frame);
    let small = resampled(filtered, width, height);
    assert forall|i: int| 0 <= i < filtered.bytes.len() implies filtered.bytes[i] == 0 by {
        lemma_offset_inverse(frame.width, frame.height, i);
        let x = (i / 3) % (frame.width as int);
        let y = (i / 3) / (frame.width as int);
        assert(frame.in_bounds(x, y));
        assert(config.filter.matches(frame.pixel(x, y)));
        assert(frame.offset(x, y) == 3 * (i / 3));
    }
    assert forall|i: int| 0 <= i < small.bytes.len() implies small.bytes[i] == 0 by {
        if !is_empty(filtered) {
            lemma_offset_inverse(width, height, i);
            let x = (i / 3) % (width as int);
            let y = (i / 3) / (width as int);
            lemma_nearest_bounds(x, filtered.width, width);
            lemma_nearest_bounds(y, filtered.height, height);
            lemma_offset_bounds(
                filtered.width,
                filtered.height,
                nearest(x, filtered.width, width),
                nearest(y, filtered.height, height),
            );
        }
    }
    lemma_offset_bounds(width, height, col, row);
    let k = row * width + col;
    assert(0 <= 3 * k && 3 * k + 2 < small.bytes.len());
    lemma_luminance_pointwise(small, col, row);
    lemma_art_pointwise(luminance_of(small), config.symbols, row, col);
    assert(ramp_index(0, config.symbols.len()) == 0);
}

/// The symbol grid of a frame. The frame is filtered in place.
pub fn frame_to_art(config: &PipelineConfig, frame: &mut PixelBuffer) -> (grid: ArtGrid)
    requires
        config.wf(),
        old(frame).wf(),
    ensures
        final(frame).wf(),
        final(frame)@ == config@.filter.filtered(old(frame)@),
        grid.wf(),
        grid@ == frame_art(config@, old(frame)@),
        grid@.rows == config@.geometry.grid.height,
        grid@.cols == config@.geometry.grid.width,
{
    let size = config.geometry().grid;
    config.filter().apply(frame);
    let small = resample(frame, size.width, size.height);
    let intensities = luminance(&small);
    ArtGrid::from_intensity(&intensities, config.ramp())
}

/// Renders one captured frame as the configuration asks: character art on
/// a fresh canvas of the output size, or the overlay text on the frame
/// itself.
pub fn produce_frame(
    config: &PipelineConfig,
    overlay: &Overlay,
    font: &FontAsset,
    frame: PixelBuffer,
) -> (canvas: PixelBuffer)
    requires
        config.wf(),
        font.wf(),
        frame.wf(),
    ensures
        canvas.wf(),
        canvas@ == rendered(config@, *overlay, font@, frame@),
        config@.render == RenderMode::Art ==> canvas@.width == config@.geometry.output.width
            && canvas@.height == config@.geometry.output.height,
        config@.render == RenderMode::Overlay ==> canvas@.width == frame@.width && canvas@.height
            == frame@.height,
{
    let mut frame = frame;
    match config.render() {
        RenderMode::Art => {
            let grid = frame_to_art(config, &mut frame);
            let size = config.geometry().output;
            create_ascii_image(&grid, font, size.width, size.height)
        },
        RenderMode::Overlay => {
            render_text(
                &mut frame,
                overlay.text,
                overlay.x,
                overlay.y,
                overlay.advance,
                font,
                Channel::Red,
            );
            frame
        },
    }
}

/// Decodes the bytes of one captured frame and renders it. Bytes that do
/// not decode to a frame of the capture size give `Decode`, and nothing else
/// can fail.
pub fn process_capture(
    config: &PipelineConfig,
    overlay: &Overlay,
    font: &FontAsset,
    bytes: &[u8],
) -> (out: Result<PixelBuffer, PipelineError>)
    requires
        config.wf(),
        font.wf(),
    ensures
        out is Ok <==> rendered_capture(config@, *overlay, font@, bytes@) is Some,
        out matches Ok(canvas) ==> canvas.wf() && Some(canvas@) == rendered_capture(
            config@,
            *overlay,
            font@,
            bytes@,
        ) && canvas@.width == config@.canvas_size().width && canvas@.height
            == config@.canvas_size().height,
        out matches Err(e) ==> e == PipelineError::Decode,
{
    let size = config.geometry().capture;
    match decode_frame(bytes, size.width, size.height) {
        Ok(frame) => Ok(produce_frame(config, overlay, font, frame)),
        Err(e) => Err(e),
    }
}

} // verus!
