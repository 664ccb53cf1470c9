//! The work on one file between reading it and writing it, and the messages
//! of the steps that can fail.
use vstd::prelude::*;

use crate::codec::{
    compress_rgb, decodable, decode_image, decoded_size, ends_with_eoi, fitted_size,
    jpeg_frame_size, lossy_text, path_text, resize_within, Frame, JPEG_MAX_DIMENSION,
};
use crate::geometry::{capped_bound, fits_box};

verus! {

/// The step at which a batch, or the work on one of its files, failed.
#[derive(Clone, Copy, Debug, PartialEq, Eq, Structural)]
pub enum Stage {
    List,
    CreateOutputDir,
    Read,
    Decode,
    ReadMetadata,
    Compress,
    Write,
    WriteMetadata,
}

/// Why a directory could not be used or a file could not be transcoded: the
/// step, the path, and what the failing step reported.
#[derive(Debug)]
pub struct Failure {
    pub stage: Stage,
    pub path: Vec<u8>,
    pub detail: String,
}

/// The opening words of a failure's message at each step.
pub open spec fn stage_text(stage: Stage) -> Seq<char> {
    match stage {
        Stage::List => "Failed to list "@,
        Stage::CreateOutputDir => "Failed to create "@,
        Stage::Read => "Failed to read "@,
        Stage::Decode => "Failed to decode "@,
        Stage::ReadMetadata => "Failed to read metadata from "@,
        Stage::Compress => "Failed to compress "@,
        Stage::Write => "Failed to write "@,
        Stage::WriteMetadata => "Failed to write metadata to "@,
    }
}

/// The message of a failure: the step, the path, and the detail.
pub open spec fn failure_text(stage: Stage, path: Seq<u8>, detail: Seq<char>) -> Seq<char> {
    stage_text(stage) + lossy_text(path) + ": "@ + detail
}

/// What `encode_frame` reports when a frame cannot be stored as a JPEG.
pub open spec fn unencodable_text() -> Seq<char> {
    "the image is empty, has a side longer than 65500 pixels, or lacks pixels"@
}

/// A frame that the JPEG encoder takes: not empty, no side over the
/// encoder's limit, and one RGB triple for each pixel.
pub open spec fn encodable(frame: Frame) -> bool {
    &&& 0 < frame.width <= JPEG_MAX_DIMENSION
    &&& 0 < frame.height <= JPEG_MAX_DIMENSION
    &&& frame.pixels@.len() == 3 * frame.width * frame.height
}

/// The side that an image of `width` by `height` is fitted to: the target
/// size, capped at the longer side; an empty image gets the target size.
pub open spec fn resize_bound(target_size: u32, width: u32, height: u32) -> u32 {
    if width > 0 && height > 0 {
        capped_bound(target_size as int, width as int, height as int) as u32
    } else {
        target_size
    }
}

/// `frame` is the image decoded from `bytes`, fitted into a square of side
/// `target_size` without being enlarged, as 8-bit RGB.
pub open spec fn resized_from(frame: Frame, bytes: Seq<u8>, target_size: u32) -> bool {
    let (w, h) = (frame.source_width, frame.source_height);
    &&& (w, h) == decoded_size(bytes)
    &&& (frame.width, frame.height) == fitted_size(w, h, resize_bound(target_size, w, h))
    &&& w > 0 && h > 0 ==> fits_box(
        w as int,
        h as int,
        capped_bound(target_size as int, w as int, h as int),
        frame.width as int,
        frame.height as int,
    )
    &&& frame.pixels@.len() >= 3 * frame.width * frame.height
}

impl Failure {
    /// The failure of `stage` on the file at `path`.
    pub fn new(stage: Stage, path: &[u8], detail: String) -> (r: Failure)
        ensures
            r.stage == stage,
            r.path@ == path@,
            r.detail@ == detail@,
    {
        Failure { stage, path: vstd::slice::slice_to_vec(path), detail }
    }

    /// The human-readable message: `Failed to <step> <path>: <detail>`.
    pub fn message(&self) -> (r: String)
        ensures
            r@ == failure_text(self.stage, self.path@, self.detail@),
    {
        let opening: &str = match self.stage {
            Stage::List => "Failed to list ",
            Stage::CreateOutputDir => "Failed to create ",
            Stage::Read => "Failed to read ",
            Stage::Decode => "Failed to decode ",
            Stage::ReadMetadata => "Failed to read metadata from ",
            Stage::Compress => "Failed to compress ",
            Stage::Write => "Failed to write ",
            Stage::WriteMetadata => "Failed to write metadata to ",
        };
        let mut r = String::from_str(opening);
        let shown = path_text(self.path.as_slice());
        r.append(shown.as_str());
        r.append(": ");
        r.append(self.detail.as_str());
        r
    }
}

/// Decodes the bytes of the file at `input_path` and resizes the image to fit
/// in a square of side `target_size`, as 8-bit RGB; an image that already fits
/// keeps its size. Fails at the decode step, naming the file, exactly when the
/// bytes do not decode.
pub fn decode_and_resize(input_path: &[u8], bytes: &[u8], target_size: u32) -> (r: Result<Frame, Failure>)
    requires
        target_size > 0,
    ensures
        r is Ok <==> decodable(bytes@),
        r matches Ok(frame) ==> resized_from(frame, bytes@, target_size),
        r matches Err(e) ==> e.stage == Stage::Decode && e.path@ == input_path@,
{
    match decode_image(bytes) {
        Ok(decoded) => {
            let bound = if decoded.width > 0 && decoded.height > 0 {
                let longer = if decoded.width >= decoded.height {
                    decoded.width
                } else {
                    decoded.height
                };
                if target_size <= longer {
                    target_size
                } else {
                    longer
                }
            } else {
                target_size
            };
            Ok(resize_within(&decoded, bound))
        },
        Err(detail) => Err(Failure::new(Stage::Decode, input_path, detail)),
    }
}

/// Encodes a frame as a JPEG of the given quality. Fails at the compress step,
/// naming the file at `input_path`, exactly when the frame is not encodable.
pub fn encode_frame(input_path: &[u8], frame: &Frame, quality: u8) -> (r: Result<Vec<u8>, Failure>)
    ensures
        r is Ok <==> encodable(*frame),
        r matches Ok(jpeg) ==> jpeg_frame_size(jpeg@) == Some((frame.width, frame.height))
            && ends_with_eoi(jpeg@),
        r matches Err(e) ==> e.stage == Stage::Compress && e.path@ == input_path@
            && e.detail@ == unencodable_text(),
{
    let fits = 0 < frame.width && frame.width <= JPEG_MAX_DIMENSION && 0 < frame.height
        && frame.height <= JPEG_MAX_DIMENSION;
    if fits {
        let w = frame.width as u64;
        let h = frame.height as u64;
        assert(3 * w * h <= 3 * 65500 * 65500) by (nonlinear_arith)
            requires
                w <= 65500,
                h <= 65500,
        ;
        if frame.pixels.len() as u64 == 3 * w * h {
            return Ok(compress_rgb(frame.pixels.as_slice(), frame.width, frame.height, quality));
        }
    }
    let detail = String::from_str("the image is empty, has a side longer than 65500 pixels, or lacks pixels");
    Err(Failure::new(Stage::Compress, input_path, detail))
}

/// A failure's message names the file: the path's text stands in it right
/// after the step's opening words.
pub proof fn lemma_message_names_file(stage: Stage, path: Seq<u8>, detail: Seq<char>)
    ensures
        failure_text(stage, path, detail).subrange(
            stage_text(stage).len() as int,
            (stage_text(stage).len() + lossy_text(path).len()) as int,
        ) == lossy_text(path),
{
    let t = failure_text(stage, path, detail);
    assert(t.subrange(
        stage_text(stage).len() as int,
        (stage_text(stage).len() + lossy_text(path).len()) as int,
    ) =~= lossy_text(path));
}

/// Resizing again with the same target size gives the same dimensions: two
/// frames made from the same bytes for one target size have one size.
pub proof fn lemma_resize_dimensions_stable(
    bytes: Seq<u8>,
    target_size: u32,
    first: Frame,
    second: Frame,
)
    requires
        resized_from(first, bytes, target_size),
        resized_from(second, bytes, target_size),
    ensures
        first.width == second.width,
        first.height == second.height,
{
}

} // verus!
