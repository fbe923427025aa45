use std::io::Write;

use image::{DynamicImage, GenericImageView, ImageBuffer};
use piclayout::error::AppError;
use piclayout::image_proc::ImageTransform;
use piclayout::metadata::{
    apply_orientation, exif_orientation_transform, extract_icc_profile_from_bytes,
    read_orientation_from_bytes,
};

#[test]
fn apply_orientation_rotates_90_degrees() {
    let img = DynamicImage::ImageRgb8(ImageBuffer::from_pixel(2, 3, image::Rgb([1, 2, 3])));

    let out = apply_orientation(img, Some(6), true);

    assert_eq!(out.width(), 3);
    assert_eq!(out.height(), 2);
}

#[test]
fn orientation_is_ignored_when_disabled() {
    let img = DynamicImage::ImageRgb8(ImageBuffer::from_pixel(2, 3, image::Rgb([1, 2, 3])));
    let out = apply_orientation(img, Some(6), false);
    assert_eq!(out.dimensions(), (2, 3));
}

#[test]
fn orientation_codes_map_to_transforms() {
    assert_eq!(exif_orientation_transform(None, true), ImageTransform::Identity);
    assert_eq!(exif_orientation_transform(Some(1), true), ImageTransform::Identity);
    assert_eq!(exif_orientation_transform(Some(2), true), ImageTransform::FlipHorizontal);
    assert_eq!(exif_orientation_transform(Some(3), true), ImageTransform::Rotate180);
    assert_eq!(exif_orientation_transform(Some(4), true), ImageTransform::FlipVertical);
    assert_eq!(
        exif_orientation_transform(Some(5), true),
        ImageTransform::FlipHorizontalThenRotate90
    );
    assert_eq!(exif_orientation_transform(Some(6), true), ImageTransform::Rotate90);
    assert_eq!(
        exif_orientation_transform(Some(7), true),
        ImageTransform::FlipHorizontalThenRotate270
    );
    assert_eq!(exif_orientation_transform(Some(8), true), ImageTransform::Rotate270);
    assert_eq!(exif_orientation_transform(Some(9), true), ImageTransform::Identity);
    assert_eq!(exif_orientation_transform(Some(8), false), ImageTransform::Identity);
}

fn jpeg_with_exif_orientation(orientation: u16) -> Vec<u8> {
    let mut tiff = Vec::new();
    tiff.extend_from_slice(b"MM\0\x2a");
    tiff.extend_from_slice(&8u32.to_be_bytes());
    tiff.extend_from_slice(&1u16.to_be_bytes());
    tiff.extend_from_slice(&0x0112u16.to_be_bytes());
    tiff.extend_from_slice(&3u16.to_be_bytes());
    tiff.extend_from_slice(&1u32.to_be_bytes());
    tiff.extend_from_slice(&orientation.to_be_bytes());
    tiff.extend_from_slice(&[0, 0]);
    tiff.extend_from_slice(&0u32.to_be_bytes());
    let mut app1 = b"Exif\0\0".to_vec();
    app1.extend_from_slice(&tiff);
    let mut jpeg = vec![0xFF, 0xD8, 0xFF, 0xE1];
    jpeg.extend_from_slice(&((app1.len() + 2) as u16).to_be_bytes());
    jpeg.extend_from_slice(&app1);
    jpeg.extend_from_slice(&[0xFF, 0xDA, 0x00, 0x02, 0xFF, 0xD9]);
    jpeg
}

#[test]
fn reads_exif_orientation_from_jpeg_bytes() {
    assert_eq!(read_orientation_from_bytes(&jpeg_with_exif_orientation(6)), Some(6));
    assert_eq!(read_orientation_from_bytes(&jpeg_with_exif_orientation(3)), Some(3));
}

#[test]
fn missing_exif_gives_no_orientation() {
    assert_eq!(read_orientation_from_bytes(&[0xFF, 0xD8, 0xFF, 0xD9]), None);
    assert_eq!(read_orientation_from_bytes(b"not an image"), None);
}

fn png_with_iccp(payload: &[u8]) -> Vec<u8> {
    let mut png = b"\x89PNG\r\n\x1a\n".to_vec();
    let ihdr = [0u8, 0, 0, 1, 0, 0, 0, 1, 8, 2, 0, 0, 0];
    png.extend_from_slice(&(ihdr.len() as u32).to_be_bytes());
    png.extend_from_slice(b"IHDR");
    png.extend_from_slice(&ihdr);
    png.extend_from_slice(&[0, 0, 0, 0]);
    png.extend_from_slice(&(payload.len() as u32).to_be_bytes());
    png.extend_from_slice(b"iCCP");
    png.extend_from_slice(payload);
    png.extend_from_slice(&[0, 0, 0, 0]);
    png
}

#[test]
fn extracts_compressed_icc_profile_from_png() {
    let profile: Vec<u8> = (0..500u32).map(|i| (i * 7 % 256) as u8).collect();
    let mut encoder = flate2::write::ZlibEncoder::new(Vec::new(), flate2::Compression::default());
    encoder.write_all(&profile).unwrap();
    let compressed = encoder.finish().unwrap();
    let mut payload = b"sRGB\0\0".to_vec();
    payload.extend_from_slice(&compressed);

    assert_eq!(extract_icc_profile_from_bytes(&png_with_iccp(&payload)).unwrap(), Some(profile));
}

#[test]
fn corrupt_png_icc_stream_is_an_io_error() {
    let mut payload = b"sRGB\0\0".to_vec();
    payload.extend_from_slice(&[1, 2, 3, 4, 5]);
    let result = extract_icc_profile_from_bytes(&png_with_iccp(&payload));
    assert!(matches!(result, Err(AppError::Io(_))));
}

#[test]
fn unknown_compression_method_gives_no_png_profile() {
    let payload = b"sRGB\0\x01abc".to_vec();
    assert_eq!(extract_icc_profile_from_bytes(&png_with_iccp(&payload)).unwrap(), None);
}

#[test]
fn other_files_have_no_icc_profile() {
    assert_eq!(extract_icc_profile_from_bytes(b"GIF89a").unwrap(), None);
    assert_eq!(extract_icc_profile_from_bytes(&[0xFF, 0xD8, 0xFF, 0xD9]).unwrap(), None);
}
