//! The image decoder and resizer of the `image` crate and the JPEG encoder of
//! `mozjpeg`, each behind a contract.
use vstd::prelude::*;

use crate::geometry::fits_box;

verus! {

/// `image::DynamicImage`: a decoded image, in whatever pixel format its file
/// held, carried unopened from the decoder to the resizer.
#[verifier::external_type_specification]
#[verifier::external_body]
pub struct ExDynamicImage(image::DynamicImage);

/// Whether `image::load_from_memory` decodes these bytes.
pub uninterp spec fn decodable(bytes: Seq<u8>) -> bool;

/// The `(width, height)` of the image that `image::load_from_memory` decodes
/// from these bytes.
pub uninterp spec fn decoded_size(bytes: Seq<u8>) -> (u32, u32);

/// The dimensions that `DynamicImage::resize` gives an image of `width` by
/// `height` pixels asked to fit in a square of side `bound`.
pub uninterp spec fn fitted_size(width: u32, height: u32, bound: u32) -> (u32, u32);

/// The text that `String::from_utf8_lossy` makes of these bytes.
pub uninterp spec fn lossy_text(bytes: Seq<u8>) -> Seq<char>;

/// The largest width or height that the JPEG encoder accepts.
pub const JPEG_MAX_DIMENSION: u32 = 65500;

/// An 8-bit RGB image: `pixels` holds its rows top to bottom, three bytes to a
/// pixel, and `source_width` by `source_height` is the size of the image it was
/// resized from.
#[derive(Debug)]
pub struct Frame {
    pub source_width: u32,
    pub source_height: u32,
    pub width: u32,
    pub height: u32,
    pub pixels: Vec<u8>,
}

/// An image as the decoder gave it, with the size that the decoder reported.
/// Only `decode_image` makes one, so `width` and `height` are always the
/// image's own.
pub struct Decoded {
    pub(crate) image: image::DynamicImage,
    pub width: u32,
    pub height: u32,
}

/// Relies on `image::load_from_memory`: it guesses the format from the bytes
/// themselves and decodes them, or fails with an `ImageError`, whose text is
/// returned; which of the two, and the size of the image, depend on the bytes
/// alone. The size is read with `DynamicImage::width` and `height`.
#[verifier::external_body]
pub(crate) fn decode_image(bytes: &[u8]) -> (r: Result<Decoded, String>)
    ensures
        r is Ok <==> decodable(bytes@),
        r matches Ok(d) ==> (d.width, d.height) == decoded_size(bytes@),
{
    image::load_from_memory(bytes)
        .map(|image| Decoded { width: image.width(), height: image.height(), image })
        .map_err(|e| e.to_string())
}

/// Relies on `DynamicImage::resize` with the Lanczos3 filter and on
/// `DynamicImage::into_rgb8`. `resize` keeps the aspect ratio: it multiplies
/// both sides by `bound` over the longer side, in `f64`, and rounds each (to at
/// least one pixel), so the longer side becomes the bound and the shorter one
/// lands within a pixel of its proportional length; with the longer side itself
/// as the bound the size stays. `into_rgb8` keeps the size, and `into_raw`
/// hands over a buffer that holds every pixel.
#[verifier::external_body]
pub(crate) fn resize_within(decoded: &Decoded, bound: u32) -> (r: Frame)
    requires
        bound > 0,
    ensures
        r.source_width == decoded.width,
        r.source_height == decoded.height,
        (r.width, r.height) == fitted_size(decoded.width, decoded.height, bound),
        decoded.width > 0 && decoded.height > 0 ==> fits_box(
            decoded.width as int,
            decoded.height as int,
            bound as int,
            r.width as int,
            r.height as int,
        ),
        r.pixels@.len() >= 3 * r.width * r.height,
{
    let rgb = decoded.image.resize(bound, bound, image::imageops::FilterType::Lanczos3).into_rgb8();
    Frame {
        source_width: decoded.width,
        source_height: decoded.height,
        width: rgb.width(),
        height: rgb.height(),
        pixels: rgb.into_raw(),
    }
}

/// The big-endian 16-bit number at `i`.
pub open spec fn be16(b: Seq<u8>, i: int) -> int {
    b[i] as int * 256 + b[i + 1] as int
}

/// A start-of-frame marker code: `0xc0` to `0xcf`, less DHT, JPG and DAC.
pub open spec fn is_sof(code: u8) -> bool {
    0xc0u8 <= code <= 0xcfu8 && code != 0xc4u8 && code != 0xc8u8 && code != 0xccu8
}

/// The `(width, height)` of the first frame header at or after the segment
/// that starts at `p`, skipping the segments before it by their lengths.
pub open spec fn frame_size_from(b: Seq<u8>, p: int) -> Option<(u32, u32)>
    decreases b.len() - p,
{
    if p < 0 || p + 4 > b.len() || b[p] != 0xffu8 {
        None
    } else if is_sof(b[p + 1]) {
        if p + 9 <= b.len() {
            Some((be16(b, p + 7) as u32, be16(b, p + 5) as u32))
        } else {
            None
        }
    } else if be16(b, p + 2) < 2 || p + 2 + be16(b, p + 2) > b.len() {
        None
    } else {
        frame_size_from(b, p + 2 + be16(b, p + 2))
    }
}

/// The `(width, height)` that a JPEG stream's first frame header records, if
/// the stream starts with SOI and such a header can be found.
pub open spec fn jpeg_frame_size(b: Seq<u8>) -> Option<(u32, u32)> {
    if b.len() >= 2 && b[0] == 0xffu8 && b[1] == 0xd8u8 {
        frame_size_from(b, 2)
    } else {
        None
    }
}

/// A JPEG stream ends with the EOI marker.
pub open spec fn ends_with_eoi(b: Seq<u8>) -> bool {
    b.len() >= 4 && b[b.len() - 2] == 0xffu8 && b[b.len() - 1] == 0xd9u8
}

/// Relies on `mozjpeg::Compress`: RGB input, all components in one scan,
/// scans considered during trellis quantisation, the given quality. libjpeg
/// stops with a panic on an empty image, on a side over `JPEG_MAX_DIMENSION`
/// and on fewer rows than the height, which `requires` leaves out; on a `Vec`
/// the writes do not fail. libjpeg writes SOI, then APP and DQT segments, each
/// with its length, then the frame header with the height and width it was
/// given, and EOI last (`jcmarker.c`).
#[verifier::external_body]
pub(crate) fn compress_rgb(pixels: &[u8], width: u32, height: u32, quality: u8) -> (r: Vec<u8>)
    requires
        0 < width <= JPEG_MAX_DIMENSION,
        0 < height <= JPEG_MAX_DIMENSION,
        pixels@.len() == 3 * width * height,
    ensures
        jpeg_frame_size(r@) == Some((width, height)),
        ends_with_eoi(r@),
{
    let mut c = mozjpeg::Compress::new(mozjpeg::ColorSpace::JCS_RGB);
    c.set_size(width as usize, height as usize);
    c.set_scan_optimization_mode(mozjpeg::ScanMode::AllComponentsTogether);
    c.set_use_scans_in_trellis(true);
    c.set_quality(quality.into());
    let mut started = c.start_compress(Vec::new()).unwrap();
    started.write_scanlines(pixels).unwrap();
    started.finish().unwrap()
}

/// Relies on `String::from_utf8_lossy`, which shows a path as `Path::display` does.
#[verifier::external_body]
pub(crate) fn path_text(path: &[u8]) -> (r: String)
    ensures
        r@ == lossy_text(path@),
{
    String::from_utf8_lossy(path).into_owned()
}

} // verus!
