use std::path::Path;

use resize_jpeg::naming::{find_last_dot, join_path, output_file_name};

fn out(name: &str) -> String {
    String::from_utf8(output_file_name(name.as_bytes())).unwrap()
}

#[test]
fn png_becomes_jpg() {
    assert_eq!(out("photo.png"), "photo.jpg");
}

#[test]
fn jpeg_and_jpg_become_jpg() {
    assert_eq!(out("photo.jpeg"), "photo.jpg");
    assert_eq!(out("photo.jpg"), "photo.jpg");
    assert_eq!(out("photo.JPG"), "photo.jpg");
}

#[test]
fn only_the_last_extension_is_replaced() {
    assert_eq!(out("archive.tar.gz"), "archive.tar.jpg");
}

#[test]
fn name_without_extension_gains_one() {
    assert_eq!(out("scan"), "scan.jpg");
}

#[test]
fn leading_dot_is_not_an_extension() {
    assert_eq!(out(".hidden"), ".hidden.jpg");
    assert_eq!(out(".hidden.png"), ".hidden.jpg");
}

#[test]
fn trailing_dot_is_an_empty_extension() {
    assert_eq!(out("photo."), "photo.jpg");
}

#[test]
fn output_names_agree_with_set_extension() {
    for name in ["a.png", "b", ".c", "d.e.f", "g.", "..h", "i.j.", "k..l", "x.jpeg"] {
        let mut expected = Path::new("out").join(name);
        expected.set_extension("jpg");
        let joined = join_path(b"out", &output_file_name(name.as_bytes()));
        assert_eq!(Path::new(std::str::from_utf8(&joined).unwrap()), expected, "{}", name);
    }
}

#[test]
fn last_dot_positions() {
    assert_eq!(find_last_dot(b"a.b.c"), Some(3));
    assert_eq!(find_last_dot(b"abc"), None);
    assert_eq!(find_last_dot(b""), None);
    assert_eq!(find_last_dot(b".x"), Some(0));
}

#[test]
fn join_adds_one_separator() {
    assert_eq!(join_path(b"in", b"a.png"), b"in/a.png".to_vec());
    assert_eq!(join_path(b"in/", b"a.png"), b"in/a.png".to_vec());
}

#[test]
fn join_with_empty_directory_is_the_name() {
    assert_eq!(join_path(b"", b"a.png"), b"a.png".to_vec());
}

#[test]
fn join_with_rooted_name_is_the_name() {
    assert_eq!(join_path(b"in", b"/abs/a.png"), b"/abs/a.png".to_vec());
}
