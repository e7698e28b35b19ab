//! The plain-text PPM writer and its decimal formatting.

use weekendraytracer::camera::Camera;
use weekendraytracer::ppm::{push_decimal, PPMWriter};
use weekendraytracer::render::render;
use weekendraytracer::renderable::Scene;

#[test]
fn decimal_formatting() {
    let mut out: Vec<u8> = Vec::new();
    push_decimal(&mut out, 0);
    push_decimal(&mut out, 7);
    push_decimal(&mut out, 12345);
    push_decimal(&mut out, 255);
    assert_eq!(out, b"0712345255");
}

#[test]
fn header_and_metadata() {
    let mut writer = PPMWriter::new();
    writer.write_magic_number();
    writer.write_metadata(400, 200, 255);
    assert_eq!(writer.bytes().as_slice(), b"P3\n400 200\n255\n");
}

#[test]
fn single_pixel_image() {
    let mut writer = PPMWriter::new();
    let image = vec![0i64, 500_000, 1_000_000];
    writer.write(&image, 1, 1);
    assert_eq!(writer.bytes().as_slice(), b"P3\n1 1\n255\n0 127 255 ");
}

#[test]
fn channels_clamp_to_the_byte_range() {
    let mut writer = PPMWriter::new();
    let image = vec![2_000_000i64, -500_000, 999_999];
    writer.write_image_data(&image);
    // 2.0 scales past 255 and clamps; negative radiance clamps to 0;
    // 0.999999 lands just under 255.
    assert_eq!(writer.bytes().as_slice(), b"255 0 254 ");
}

#[test]
fn rendered_image_serializes_with_the_right_header() {
    let camera = Camera::default();
    let scene = Scene::new();
    let image = render(&camera, &scene, 2, 2, 1);

    let mut writer = PPMWriter::new();
    writer.write(&image, 2, 2);
    let bytes = writer.bytes();
    assert!(bytes.starts_with(b"P3\n2 2\n255\n"));
    // Four pixels, three channels each, every channel one to three
    // digits followed by a space.
    let body = &bytes[b"P3\n2 2\n255\n".len()..];
    let fields: Vec<&[u8]> = body.split(|&b| b == b' ').filter(|f| !f.is_empty()).collect();
    assert_eq!(fields.len(), 12);
}
