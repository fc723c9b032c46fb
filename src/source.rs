//! Choosing the kind of frame source, and decoding image files into frames.
use vstd::prelude::*;

use crate::driver::SourceKind;
use crate::frame::RasterFrame;

verus! {

/// `image::ImageError`, the image crate's error, carried through unopened.
#[verifier::external_type_specification]
#[verifier::external_body]
pub struct ExImageError(image::ImageError);

/// Why frames could not be had from an image file.
#[derive(Clone, Copy, Debug, PartialEq, Eq, Structural)]
pub enum LoadError {
    /// The path names no image format that is understood.
    Path,
    /// The bytes are not a valid image of a supported format.
    Decode,
}

/// Whether the extension of `path` names the GIF format: `None` where it names no
/// known image format.
pub uninterp spec fn gif_by_extension(path: Seq<char>) -> Option<bool>;

/// Relies on `image::ImageFormat::from_path`: the format is read from the path's
/// extension alone, and is an error where the extension names no known format.
#[verifier::external_body]
fn extension_is_gif(path: &str) -> (r: Option<bool>)
    ensures
        r == gif_by_extension(path@),
{
    match image::ImageFormat::from_path(path) {
        Ok(image::ImageFormat::Gif) => Some(true),
        Ok(_) => Some(false),
        Err(_) => None,
    }
}

/// A still image decoded from bytes: width, height and RGBA bytes.
pub uninterp spec fn decoded_still(bytes: Seq<u8>) -> Option<(u32, u32, Seq<u8>)>;

/// Relies on `image::load_from_memory` followed by `DynamicImage::to_rgba8`: the
/// format is guessed from the bytes, which are then decoded and converted to RGBA;
/// the outcome depends on the bytes alone.
#[verifier::external_body]
fn decode_still_rgba(bytes: &[u8]) -> (r: Result<(u32, u32, Vec<u8>), image::ImageError>)
    ensures
        match r {
            Ok(t) => decoded_still(bytes@) == Some((t.0, t.1, t.2@)),
            Err(_) => decoded_still(bytes@) is None,
        },
{
    let rgba = image::load_from_memory(bytes)?.to_rgba8();
    Ok((rgba.width(), rgba.height(), rgba.into_raw()))
}

/// The frames of a GIF animation decoded from bytes, each as width, height and
/// RGBA bytes.
pub uninterp spec fn decoded_gif(bytes: Seq<u8>) -> Option<Seq<(u32, u32, Seq<u8>)>>;

/// Relies on `image::codecs::gif::GifDecoder` with `AnimationDecoder::into_frames`,
/// `Frames::collect_frames` and `Frame::into_buffer`: every frame is decoded, in
/// order, to an RGBA buffer; the outcome depends on the bytes alone.
#[verifier::external_body]
fn decode_gif_rgba(bytes: &[u8]) -> (r: Result<Vec<(u32, u32, Vec<u8>)>, image::ImageError>)
    ensures
        match r {
            Ok(v) => decoded_gif(bytes@) == Some(decoded_views(v@)),
            Err(_) => decoded_gif(bytes@) is None,
        },
{
    let decoder = image::codecs::gif::GifDecoder::new(std::io::Cursor::new(bytes))?;
    let frames = image::AnimationDecoder::into_frames(decoder).collect_frames()?;
    Ok(frames.into_iter().map(|f| f.into_buffer()).map(|b| (b.width(), b.height(), b.into_raw())).collect())
}

/// The kind of source that a path's format asks for: an animation for a GIF, a
/// still image for any other known format.
pub open spec fn kind_for_format(is_gif: Option<bool>) -> Result<SourceKind, LoadError> {
    match is_gif {
        Some(true) => Ok(SourceKind::FrameSequence),
        Some(false) => Ok(SourceKind::SingleImage),
        None => Err(LoadError::Path),
    }
}

/// The kind of source for a file whose format is known, or not, to be GIF.
pub fn kind_from_format(is_gif: Option<bool>) -> (r: Result<SourceKind, LoadError>)
    ensures
        r == kind_for_format(is_gif),
{
    match is_gif {
        Some(true) => Ok(SourceKind::FrameSequence),
        Some(false) => Ok(SourceKind::SingleImage),
        None => Err(LoadError::Path),
    }
}

/// The kind of source to play: the capture device where a live feed is asked
/// for, else the kind that the file's extension gives.
pub fn source_kind(path: &str, webcam_feed: bool) -> (r: Result<SourceKind, LoadError>)
    ensures
        webcam_feed ==> r == Ok::<SourceKind, LoadError>(SourceKind::DeviceCapture),
        !webcam_feed ==> r == kind_for_format(gif_by_extension(path@)),
{
    if webcam_feed {
        Ok(SourceKind::DeviceCapture)
    } else {
        kind_from_format(extension_is_gif(path))
    }
}

/// A decoded image holds exactly four bytes per pixel.
pub open spec fn well_sized(t: (u32, u32, Seq<u8>)) -> bool {
    t.2.len() == 4 * (t.0 as nat) * (t.1 as nat)
}

/// Every decoded image holds exactly four bytes per pixel.
pub open spec fn all_well_sized(ts: Seq<(u32, u32, Seq<u8>)>) -> bool {
    forall|i: int| 0 <= i < ts.len() ==> well_sized(#[trigger] ts[i])
}

/// `f` is the frame of width, height and bytes `t`.
pub open spec fn frame_is(f: RasterFrame, t: (u32, u32, Seq<u8>)) -> bool {
    f.width == t.0 && f.height == t.1 && f.pixels@ == t.2 && f.wf()
}

/// The frame for a decoded image given as width, height and RGBA bytes; a
/// decoding error where the bytes do not fill exactly the given size.
pub fn frame_from_decoded(t: (u32, u32, Vec<u8>)) -> (r: Result<RasterFrame, LoadError>)
    ensures
        r is Ok <==> well_sized((t.0, t.1, t.2@)),
        r matches Ok(f) ==> frame_is(f, (t.0, t.1, t.2@)),
        r matches Err(e) ==> e == LoadError::Decode,
{
    let (width, height, pixels) = t;
    match RasterFrame::from_rgba(width, height, pixels) {
        Some(f) => Ok(f),
        None => Err(LoadError::Decode),
    }
}

/// Decodes a still image of any supported format into one frame.
pub fn decode_still(bytes: &Vec<u8>) -> (r: Result<RasterFrame, LoadError>)
    ensures
        match decoded_still(bytes@) {
            Some(t) => if well_sized(t) {
                r matches Ok(f) && frame_is(f, t)
            } else {
                r == Err::<RasterFrame, LoadError>(LoadError::Decode)
            },
            None => r == Err::<RasterFrame, LoadError>(LoadError::Decode),
        },
{
    match decode_still_rgba(bytes.as_slice()) {
        Ok(t) => frame_from_decoded(t),
        Err(_) => Err(LoadError::Decode),
    }
}

/// Views of decoded images.
pub open spec fn decoded_views(v: Seq<(u32, u32, Vec<u8>)>) -> Seq<(u32, u32, Seq<u8>)> {
    v.map_values(|t: (u32, u32, Vec<u8>)| (t.0, t.1, t.2@))
}

/// `fs` are the frames of the decoded images `ts`, one for one and in order.
pub open spec fn frames_are(fs: Seq<RasterFrame>, ts: Seq<(u32, u32, Seq<u8>)>) -> bool {
    fs.len() == ts.len() && forall|i: int| 0 <= i < ts.len() ==> frame_is(#[trigger] fs[i], ts[i])
}

/// The frames for decoded images, in order; a decoding error where any of them
/// does not fill exactly its given size.
pub fn frames_from_decoded(v: Vec<(u32, u32, Vec<u8>)>) -> (r: Result<Vec<RasterFrame>, LoadError>)
    ensures
        r is Ok <==> all_well_sized(decoded_views(v@)),
        r matches Ok(fs) ==> frames_are(fs@, decoded_views(v@)),
        r matches Err(e) ==> e == LoadError::Decode,
{
    let ghost ts = decoded_views(v@);
    let mut frames: Vec<RasterFrame> = Vec::new();
    let mut i: usize = 0;
    while i < v.len()
        invariant
            i <= v@.len(),
            ts == decoded_views(v@),
            frames_are(frames@, ts.take(i as int)),
            forall|j: int| 0 <= j < i ==> well_sized(#[trigger] ts[j]),
        decreases v@.len() - i,
    {
        let (width, height) = (v[i].0, v[i].1);
        let pixels = v[i].2.clone();
        assert(ts[i as int] == (width, height, pixels@));
        match frame_from_decoded((width, height, pixels)) {
            Ok(f) => {
                frames.push(f);
            },
            Err(e) => {
                return Err(e);
            },
        }
        i = i + 1;
        assert(ts.take(i as int) =~= ts.take(i - 1).push(ts[i - 1]));
    }
    assert(ts.take(i as int) =~= ts);
    Ok(frames)
}

/// Decodes every frame of a GIF animation, in order.
pub fn decode_gif(bytes: &Vec<u8>) -> (r: Result<Vec<RasterFrame>, LoadError>)
    ensures
        match decoded_gif(bytes@) {
            Some(ts) => if all_well_sized(ts) {
                r matches Ok(fs) && frames_are(fs@, ts)
            } else {
                r == Err::<Vec<RasterFrame>, LoadError>(LoadError::Decode)
            },
            None => r == Err::<Vec<RasterFrame>, LoadError>(LoadError::Decode),
        },
{
    match decode_gif_rgba(bytes.as_slice()) {
        Ok(v) => frames_from_decoded(v),
        Err(_) => Err(LoadError::Decode),
    }
}

} // verus!
