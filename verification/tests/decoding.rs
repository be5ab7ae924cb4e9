use asciicam::decode::{decode_frame, frame_from_decoded, DecodedImage};
use asciicam::error::PipelineError;

fn jpeg(width: u32, height: u32, color: [u8; 3]) -> Vec<u8> {
    let mut pixels = Vec::new();
    for _ in 0..width * height {
        pixels.extend_from_slice(&color);
    }
    let mut out = Vec::new();
    image::codecs::jpeg::JpegEncoder::new_with_quality(&mut out, 100)
        .encode(&pixels, width, height, image::ExtendedColorType::Rgb8)
        .unwrap();
    out
}

fn close(a: u8, b: u8) -> bool {
    (a as i32 - b as i32).abs() <= 4
}

#[test]
fn decodes_a_frame_of_the_configured_size() {
    let bytes = jpeg(8, 6, [200, 40, 90]);
    let frame = decode_frame(&bytes, 8, 6).unwrap();
    assert_eq!(frame.width(), 8);
    assert_eq!(frame.height(), 6);
    assert_eq!(frame.as_bytes().len(), 8 * 6 * 3);
    for y in 0..6 {
        for x in 0..8 {
            let p = frame.pixel_at(x, y);
            assert!(close(p.r, 200) && close(p.g, 40) && close(p.b, 90));
        }
    }
}

#[test]
fn decoding_the_same_bytes_twice_gives_the_same_frame() {
    let bytes = jpeg(5, 3, [10, 250, 130]);
    let a = decode_frame(&bytes, 5, 3).unwrap();
    let b = decode_frame(&bytes, 5, 3).unwrap();
    assert_eq!(a.as_bytes(), b.as_bytes());
}

#[test]
fn frame_of_another_size_is_a_decode_error() {
    let bytes = jpeg(8, 6, [1, 2, 3]);
    assert_eq!(decode_frame(&bytes, 6, 8).err(), Some(PipelineError::Decode));
    assert_eq!(decode_frame(&bytes, 8, 7).err(), Some(PipelineError::Decode));
    assert_eq!(decode_frame(&bytes, 0, 0).err(), Some(PipelineError::Decode));
}

#[test]
fn malformed_bytes_are_a_decode_error() {
    assert_eq!(decode_frame(&[], 4, 4).err(), Some(PipelineError::Decode));
    assert_eq!(decode_frame(b"not a picture", 4, 4).err(), Some(PipelineError::Decode));
    let mut bytes = jpeg(4, 4, [9, 9, 9]);
    bytes.truncate(20);
    assert_eq!(decode_frame(&bytes, 4, 4).err(), Some(PipelineError::Decode));
}

#[test]
fn decoder_outcome_is_checked_against_the_configured_size() {
    let image = |width, height, len| Some(DecodedImage { width, height, data: vec![7; len] });
    let frame = frame_from_decoded(image(2, 3, 18), 2, 3).unwrap();
    assert_eq!((frame.width(), frame.height()), (2, 3));
    assert_eq!(frame.as_bytes(), &[7u8; 18][..]);
    assert_eq!(frame_from_decoded(image(3, 2, 18), 2, 3).err(), Some(PipelineError::Decode));
    assert_eq!(frame_from_decoded(image(2, 3, 17), 2, 3).err(), Some(PipelineError::Decode));
    assert_eq!(frame_from_decoded(image(2, 3, 19), 2, 3).err(), Some(PipelineError::Decode));
    assert_eq!(frame_from_decoded(None, 2, 3).err(), Some(PipelineError::Decode));
}
