use ascii_art::driver::SourceKind;
use ascii_art::source::{decode_gif, decode_still, kind_from_format, source_kind, LoadError};
use std::io::Cursor;

fn png_bytes(width: u32, height: u32, pixels: Vec<u8>) -> Vec<u8> {
    let img = image::RgbaImage::from_raw(width, height, pixels).unwrap();
    let mut out = Cursor::new(Vec::new());
    image::DynamicImage::ImageRgba8(img)
        .write_to(&mut out, image::ImageOutputFormat::Png)
        .unwrap();
    out.into_inner()
}

fn gif_bytes(frames: Vec<(u32, u32, Vec<u8>)>) -> Vec<u8> {
    let mut out = Vec::new();
    {
        let mut encoder = image::codecs::gif::GifEncoder::new(&mut out);
        let frames = frames
            .into_iter()
            .map(|(w, h, p)| image::Frame::new(image::RgbaImage::from_raw(w, h, p).unwrap()));
        encoder.encode_frames(frames).unwrap();
    }
    out
}

#[test]
fn kind_follows_extension() {
    assert_eq!(source_kind("cat.gif", false), Ok(SourceKind::FrameSequence));
    assert_eq!(source_kind("cat.png", false), Ok(SourceKind::SingleImage));
    assert_eq!(source_kind("cat.jpg", false), Ok(SourceKind::SingleImage));
    assert_eq!(source_kind("cat.notanimage", false), Err(LoadError::Path));
    assert_eq!(source_kind("cat", false), Err(LoadError::Path));
    assert_eq!(source_kind("cat", true), Ok(SourceKind::DeviceCapture));
}

#[test]
fn kind_from_known_format() {
    assert_eq!(kind_from_format(Some(true)), Ok(SourceKind::FrameSequence));
    assert_eq!(kind_from_format(Some(false)), Ok(SourceKind::SingleImage));
    assert_eq!(kind_from_format(None), Err(LoadError::Path));
}

#[test]
fn still_image_decodes_to_rgba() {
    let pixels = vec![255, 0, 0, 255, 0, 255, 0, 255, 0, 0, 255, 255, 9, 9, 9, 255];
    let bytes = png_bytes(2, 2, pixels.clone());
    let f = decode_still(&bytes).unwrap();
    assert_eq!((f.width, f.height), (2, 2));
    assert_eq!(f.pixels, pixels);
}

#[test]
fn garbage_does_not_decode() {
    assert_eq!(decode_still(&vec![1, 2, 3, 4]).err(), Some(LoadError::Decode));
    assert_eq!(decode_gif(&vec![1, 2, 3, 4]).err(), Some(LoadError::Decode));
}

#[test]
fn gif_decodes_every_frame() {
    let white = vec![255u8; 4 * 4];
    let black = [0u8, 0, 0, 255].repeat(4);
    let bytes = gif_bytes(vec![(2, 2, white.clone()), (2, 2, black.clone()), (2, 2, white.clone())]);
    let frames = decode_gif(&bytes).unwrap();
    assert_eq!(frames.len(), 3);
    for f in &frames {
        assert_eq!((f.width, f.height), (2, 2));
        assert_eq!(f.pixels.len(), 16);
    }
    assert_eq!(frames[0].pixels, white);
    assert_eq!(frames[1].pixels, black);
}
