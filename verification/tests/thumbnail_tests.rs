use std::io::Cursor;

use image::{DynamicImage, ImageFormat, ImageReader};
use nd_secure::gallery::{exif_orientation, Orientation, MAX_THUMBNAIL_BYTES};
use nd_secure::thumbnail::{generate_thumbnail, header_plan, ImageHeader};

fn png_of(width: u32, height: u32) -> Vec<u8> {
    let source = DynamicImage::new_rgb8(width, height);
    let mut encoded = Cursor::new(Vec::new());
    source.write_to(&mut encoded, ImageFormat::Png).unwrap();
    encoded.into_inner()
}

fn png_dimensions(bytes: &[u8]) -> (u32, u32) {
    ImageReader::with_format(Cursor::new(bytes), ImageFormat::Png).into_dimensions().unwrap()
}

#[test]
fn malformed_image_is_rejected_without_escaping_the_boundary() {
    let malformed = vec![0x89, b'P', b'N', b'G', 0x0d, 0x0a, 0x1a, 0x0a, 0, 1, 2, 3];
    assert!(generate_thumbnail(&malformed, "image/png").is_none());
}

#[test]
fn generates_bounded_png_thumbnail() {
    let encoded = png_of(1_024, 768);
    let generated = generate_thumbnail(&encoded, "image/png").unwrap();
    assert_eq!((generated.source_width, generated.source_height), (1_024, 768));
    assert!(generated.bytes.len() <= MAX_THUMBNAIL_BYTES);
    assert_eq!(png_dimensions(&generated.bytes), (512, 384));
}

#[test]
fn small_images_are_not_enlarged() {
    let encoded = png_of(40, 30);
    let generated = generate_thumbnail(&encoded, "image/png").unwrap();
    assert_eq!((generated.source_width, generated.source_height), (40, 30));
    assert_eq!(png_dimensions(&generated.bytes), (40, 30));
    assert_ne!(generated.bytes, encoded.iter().rev().cloned().collect::<Vec<u8>>());
}

#[test]
fn other_media_types_make_no_thumbnail() {
    let encoded = png_of(16, 16);
    assert!(generate_thumbnail(&encoded, "video/mp4").is_none());
    assert!(generate_thumbnail(&encoded, "image/gif").is_none());
}

#[test]
fn a_png_declared_as_jpeg_is_refused() {
    let encoded = png_of(16, 16);
    assert!(generate_thumbnail(&encoded, "image/jpeg").is_none());
}

#[test]
fn exif_numbers_map_to_orientations() {
    assert_eq!(exif_orientation(1), Orientation::NoTransforms);
    assert_eq!(exif_orientation(2), Orientation::FlipHorizontal);
    assert_eq!(exif_orientation(6), Orientation::Rotate90);
    assert_eq!(exif_orientation(8), Orientation::Rotate270);
    assert_eq!(exif_orientation(0), Orientation::NoTransforms);
    assert_eq!(exif_orientation(9), Orientation::NoTransforms);
}

#[test]
fn headers_within_limits_give_the_displayed_size() {
    let rotated = ImageHeader { width: 640, height: 480, reported_bytes: 640 * 480 * 3, orientation_exif: Some(6) };
    assert_eq!(header_plan(&rotated), Some((480, 640)));
    let unread = ImageHeader { orientation_exif: None, ..rotated };
    assert_eq!(header_plan(&unread), Some((640, 480)));
    let empty = ImageHeader { width: 0, ..rotated };
    assert_eq!(header_plan(&empty), None);
    let too_wide = ImageHeader { width: 32_769, height: 1, reported_bytes: 32_769 * 3, orientation_exif: None };
    assert_eq!(header_plan(&too_wide), None);
    let too_large = ImageHeader { width: 32_768, height: 32_768, reported_bytes: 1, orientation_exif: None };
    assert_eq!(header_plan(&too_large), None);
    let unreported = ImageHeader { reported_bytes: 0, ..rotated };
    assert_eq!(header_plan(&unreported), None);
}
