//! Decoding one captured frame into a pixel buffer of the configured size.

use vstd::prelude::*;
use crate::error::PipelineError;
use crate::pixels::{PixelBuffer, PixelGrid};

verus! {

/// The error type of the `image` crate, carried through unopened.
#[verifier::external_type_specification]
#[verifier::external_body]
pub struct ExImageError(image::ImageError);

/// What a JPEG decoder hands back: the dimensions it found in the stream and
/// the pixels as row-major RGB bytes.
pub struct DecodedImage {
    pub width: u32,
    pub height: u32,
    pub data: Vec<u8>,
}

/// The mathematical model of a decoded image.
pub struct DecodedShape {
    pub width: nat,
    pub height: nat,
    pub bytes: Seq<u8>,
}

impl View for DecodedImage {
    type V = DecodedShape;

    open spec fn view(&self) -> DecodedShape {
        DecodedShape { width: self.width as nat, height: self.height as nat, bytes: self.data@ }
    }
}

/// The model of a decoder's outcome.
pub open spec fn shape_of(decoded: Option<DecodedImage>) -> Option<DecodedShape> {
    match decoded {
        Some(img) => Some(img@),
        None => None,
    }
}

/// What `image::load_from_memory_with_format`, asked for JPEG and followed
/// by `DynamicImage::to_rgb8`, makes of a byte sequence: the width, the
/// height and the RGB bytes of the image, or `None` where it reports an
/// error.
pub uninterp spec fn jpeg_rgb(bytes: Seq<u8>) -> Option<(u32, u32, Seq<u8>)>;

/// The decoded image that `jpeg_rgb` describes.
pub open spec fn jpeg_image(bytes: Seq<u8>) -> Option<DecodedShape> {
    match jpeg_rgb(bytes) {
        Some((width, height, data)) => Some(
            DecodedShape { width: width as nat, height: height as nat, bytes: data },
        ),
        None => None,
    }
}

/// Calls `image::load_from_memory_with_format` with `ImageFormat::Jpeg` and
/// converts the image with `to_rgb8`. Trusted, not proved: the outcome is
/// the one named `jpeg_rgb` for these bytes, an error of the decoder
/// standing for `None`. Nothing is claimed about which bytes decode or what
/// the pixels are.
#[verifier::external_body]
fn decode_jpeg(bytes: &[u8]) -> (out: Result<DecodedImage, image::ImageError>)
    ensures
        out is Ok <==> jpeg_rgb(bytes@) is Some,
        out matches Ok(img) ==> jpeg_rgb(bytes@) == Some((img.width, img.height, img.data@)),
{
    let decoded = image::load_from_memory_with_format(bytes, image::ImageFormat::Jpeg)?;
    let rgb = decoded.to_rgb8();
    Ok(DecodedImage { width: rgb.width(), height: rgb.height(), data: rgb.into_raw() })
}

/// The frame that a decoder's outcome amounts to under the configured
/// capture size: the decoded pixels, provided the decoder succeeded, found
/// exactly the configured dimensions and delivered three bytes per pixel.
pub open spec fn frame_of(decoded: Option<DecodedShape>, width: nat, height: nat) -> Option<
    PixelGrid,
> {
    match decoded {
        Some(img) => if img.width == width && img.height == height && img.bytes.len() == width
            * height * 3 {
            Some(PixelGrid { width, height, bytes: img.bytes })
        } else {
            None
        },
        None => None,
    }
}

/// Accepts a decoder's outcome as a frame of the configured size, or
/// refuses it with `Decode`.
pub fn frame_from_decoded(decoded: Option<DecodedImage>, width: usize, height: usize) -> (out:
    Result<PixelBuffer, PipelineError>)
    ensures
        out is Ok <==> frame_of(shape_of(decoded), width as nat, height as nat) is Some,
        out matches Ok(buf) ==> buf.wf() && Some(buf@) == frame_of(
            shape_of(decoded),
            width as nat,
            height as nat,
        ),
        out matches Err(e) ==> e == PipelineError::Decode,
{
    match decoded {
        Some(img) => {
            if img.width as usize == width && img.height as usize == height {
                match PixelBuffer::from_raw(width, height, img.data) {
                    Some(buf) => Ok(buf),
                    None => Err(PipelineError::Decode),
                }
            } else {
                Err(PipelineError::Decode)
            }
        },
        None => Err(PipelineError::Decode),
    }
}

/// Decodes one JPEG frame into a pixel buffer of exactly `width * height`
/// pixels. Malformed bytes, and a frame of any other size, give `Decode`.
pub fn decode_frame(bytes: &[u8], width: usize, height: usize) -> (out: Result<
    PixelBuffer,
    PipelineError,
>)
    ensures
        out is Ok <==> frame_of(jpeg_image(bytes@), width as nat, height as nat) is Some,
        out matches Ok(buf) ==> buf.wf() && Some(buf@) == frame_of(
            jpeg_image(bytes@),
            width as nat,
            height as nat,
        ),
        out matches Err(e) ==> e == PipelineError::Decode,
{
    let decoded = match decode_jpeg(bytes) {
        Ok(img) => Some(img),
        Err(_) => None,
    };
    frame_from_decoded(decoded, width, height)
}

} // verus!
