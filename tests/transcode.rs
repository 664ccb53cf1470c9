use std::io::Cursor;

use resize_jpeg::codec::Frame;
use resize_jpeg::transcode::{decode_and_resize, encode_frame, Failure, Stage};

fn png_of(width: u32, height: u32) -> Vec<u8> {
    let img = image::RgbImage::from_fn(width, height, |x, y| image::Rgb([x as u8, y as u8, 128]));
    let mut bytes = Vec::new();
    image::DynamicImage::ImageRgb8(img)
        .write_to(&mut Cursor::new(&mut bytes), image::ImageFormat::Png)
        .unwrap();
    bytes
}

#[test]
fn landscape_is_fitted_to_the_target_width() {
    let frame = decode_and_resize(b"in/a.png", &png_of(400, 200), 100).unwrap();
    assert_eq!((frame.source_width, frame.source_height), (400, 200));
    assert_eq!((frame.width, frame.height), (100, 50));
    assert_eq!(frame.pixels.len(), 100 * 50 * 3);
}

#[test]
fn portrait_is_fitted_to_the_target_height() {
    let frame = decode_and_resize(b"in/b.png", &png_of(90, 300), 150).unwrap();
    assert_eq!((frame.width, frame.height), (45, 150));
}

#[test]
fn shorter_side_is_rounded() {
    // 100 * 333 / 1000 = 33.3
    let frame = decode_and_resize(b"in/c.png", &png_of(1000, 333), 100).unwrap();
    assert_eq!((frame.width, frame.height), (100, 33));
}

#[test]
fn small_image_keeps_its_size() {
    let frame = decode_and_resize(b"in/d.png", &png_of(50, 40), 100).unwrap();
    assert_eq!((frame.width, frame.height), (50, 40));
    assert_eq!(frame.pixels.len(), 50 * 40 * 3);
}

#[test]
fn image_of_exactly_the_target_size_keeps_its_size() {
    let frame = decode_and_resize(b"in/f.png", &png_of(100, 60), 100).unwrap();
    assert_eq!((frame.width, frame.height), (100, 60));
}

#[test]
fn tiny_square_image_keeps_its_size() {
    let frame = decode_and_resize(b"in/g.png", &png_of(10, 10), 1000).unwrap();
    assert_eq!((frame.width, frame.height), (10, 10));
}

#[test]
fn rerun_gives_the_same_dimensions() {
    let bytes = png_of(640, 480);
    let first = decode_and_resize(b"in/e.png", &bytes, 200).unwrap();
    let second = decode_and_resize(b"in/e.png", &bytes, 200).unwrap();
    assert_eq!((first.width, first.height), (second.width, second.height));
    assert_eq!((first.width, first.height), (200, 150));
}

#[test]
fn undecodable_bytes_fail_at_decode_naming_the_file() {
    let err = decode_and_resize(b"in/bad.png", b"not an image", 100).unwrap_err();
    assert_eq!(err.stage, Stage::Decode);
    assert_eq!(err.path, b"in/bad.png".to_vec());
    assert!(err.message().starts_with("Failed to decode in/bad.png: "), "{}", err.message());
}

#[test]
fn encoded_frame_is_a_jpeg_of_the_frame_size() {
    let frame = decode_and_resize(b"in/a.png", &png_of(400, 200), 100).unwrap();
    let jpeg = encode_frame(b"in/a.png", &frame, 90).unwrap();
    assert_eq!(&jpeg[..2], &[0xff, 0xd8]);
    assert_eq!(&jpeg[jpeg.len() - 2..], &[0xff, 0xd9]);
    let back = image::load_from_memory(&jpeg).unwrap();
    assert_eq!((back.width(), back.height()), (100, 50));
    assert_eq!(image::guess_format(&jpeg).unwrap(), image::ImageFormat::Jpeg);
}

#[test]
fn empty_frame_fails_at_compress() {
    let frame = Frame { source_width: 0, source_height: 0, width: 0, height: 0, pixels: Vec::new() };
    let err = encode_frame(b"in/z.png", &frame, 90).unwrap_err();
    assert_eq!(err.stage, Stage::Compress);
    assert_eq!(
        err.message(),
        "Failed to compress in/z.png: the image is empty, has a side longer than 65500 pixels, or lacks pixels"
    );
}

#[test]
fn oversized_frame_fails_at_compress() {
    let frame = Frame {
        source_width: 70000,
        source_height: 1,
        width: 70000,
        height: 1,
        pixels: vec![0; 70000 * 3],
    };
    assert_eq!(encode_frame(b"in/w.png", &frame, 90).unwrap_err().stage, Stage::Compress);
}

#[test]
fn short_pixel_buffer_fails_at_compress() {
    let frame = Frame { source_width: 2, source_height: 2, width: 2, height: 2, pixels: vec![0; 11] };
    assert_eq!(encode_frame(b"in/s.png", &frame, 90).unwrap_err().stage, Stage::Compress);
}

#[test]
fn messages_name_step_and_path() {
    let cases = [
        (Stage::List, "Failed to list dir: boom"),
        (Stage::CreateOutputDir, "Failed to create dir: boom"),
        (Stage::Read, "Failed to read dir: boom"),
        (Stage::Decode, "Failed to decode dir: boom"),
        (Stage::ReadMetadata, "Failed to read metadata from dir: boom"),
        (Stage::Compress, "Failed to compress dir: boom"),
        (Stage::Write, "Failed to write dir: boom"),
        (Stage::WriteMetadata, "Failed to write metadata to dir: boom"),
    ];
    for (stage, expected) in cases {
        assert_eq!(Failure::new(stage, b"dir", "boom".to_string()).message(), expected);
    }
}

#[test]
fn non_utf8_path_is_shown_lossily() {
    let f = Failure::new(Stage::Read, b"in/\xffx.png", "gone".to_string());
    assert_eq!(f.message(), "Failed to read in/\u{fffd}x.png: gone");
}

fn first_frame_size(b: &[u8]) -> Option<(u32, u32)> {
    if b.len() < 2 || b[0] != 0xff || b[1] != 0xd8 {
        return None;
    }
    let mut p = 2usize;
    loop {
        if p + 4 > b.len() || b[p] != 0xff {
            return None;
        }
        let code = b[p + 1];
        if (0xc0..=0xcf).contains(&code) && code != 0xc4 && code != 0xc8 && code != 0xcc {
            if p + 9 > b.len() {
                return None;
            }
            let height = u32::from(b[p + 5]) * 256 + u32::from(b[p + 6]);
            let width = u32::from(b[p + 7]) * 256 + u32::from(b[p + 8]);
            return Some((width, height));
        }
        let len = usize::from(b[p + 2]) * 256 + usize::from(b[p + 3]);
        if len < 2 || p + 2 + len > b.len() {
            return None;
        }
        p += 2 + len;
    }
}

#[test]
fn jpeg_header_records_the_frame_size() {
    for (w, h, q) in [(100u32, 50u32, 90u8), (1, 1, 5), (33, 77, 95), (640, 480, 50)] {
        let frame = Frame {
            source_width: w,
            source_height: h,
            width: w,
            height: h,
            pixels: vec![200; (w * h * 3) as usize],
        };
        let jpeg = encode_frame(b"in/q.png", &frame, q).unwrap();
        assert_eq!(first_frame_size(&jpeg), Some((w, h)));
        assert_eq!(&jpeg[jpeg.len() - 2..], &[0xff, 0xd9]);
    }
}
