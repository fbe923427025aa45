use image::{DynamicImage, GenericImageView, ImageBuffer};
use piclayout::config::BackgroundColor;
use piclayout::image_proc::{resize_srgb, add_square_border, apply_manual_rotation, fit_long_edge, validate_resize_target};

fn make_test_image(w: u32, h: u32) -> DynamicImage {
    DynamicImage::ImageRgb8(ImageBuffer::from_fn(w, h, |x, _y| image::Rgb([(x % 255) as u8, 100, 200])))
}

#[test]
fn manual_rotation_rotates_90_degrees() {
    let img = make_test_image(2, 3);

    let out = apply_manual_rotation(img, 90);

    assert_eq!(out.width(), 3);
    assert_eq!(out.height(), 2);
}

#[test]
fn manual_rotation_by_180_or_other_values_keeps_size() {
    assert_eq!(apply_manual_rotation(make_test_image(2, 3), 180).dimensions(), (2, 3));
    assert_eq!(apply_manual_rotation(make_test_image(2, 3), 270).dimensions(), (3, 2));
    assert_eq!(apply_manual_rotation(make_test_image(2, 3), 0).dimensions(), (2, 3));
    assert_eq!(apply_manual_rotation(make_test_image(2, 3), 45).dimensions(), (2, 3));
}

#[test]
fn add_square_border_produces_correct_size() {
    let img = make_test_image(3000, 2000);
    let bg = BackgroundColor::White;
    let out = add_square_border(img, 4200, &bg);
    assert_eq!(out.width(), 4200);
    assert_eq!(out.height(), 4200);
}

#[test]
fn fit_long_edge_scales_wide_and_tall_images() {
    assert_eq!(fit_long_edge(8000, 4000, 4000).unwrap(), (4000, 2000));
    assert_eq!(fit_long_edge(3000, 6000, 4000).unwrap(), (2000, 4000));
    // 3 * 100 / 200 = 1.5 rounds up to 2
    assert_eq!(fit_long_edge(200, 3, 100).unwrap(), (100, 2));
    // the short edge never drops to 0
    assert_eq!(fit_long_edge(10_000, 1, 10).unwrap(), (10, 1));
}

#[test]
fn fit_long_edge_rejects_empty_sizes() {
    let err = fit_long_edge(0, 10, 10).unwrap_err().to_string();
    assert!(err.contains("resize source and target dimensions must be greater than 0"));
    assert!(fit_long_edge(10, 10, 0).is_err());
}

#[test]
fn resize_target_must_not_be_empty() {
    assert!(validate_resize_target(1, 1).is_ok());
    let err = validate_resize_target(0, 5).unwrap_err().to_string();
    assert!(err.contains("resize target dimensions must be greater than 0"));
}

#[test]
fn srgb_resize_gives_the_requested_size() {
    let out = resize_srgb(make_test_image(12, 8), 6, 4).unwrap();
    assert_eq!(out.dimensions(), (6, 4));
    let err = resize_srgb(make_test_image(12, 8), 0, 4).unwrap_err().to_string();
    assert!(err.contains("resize target dimensions must be greater than 0"));
    let uniform = DynamicImage::ImageRgba8(image::RgbaImage::from_pixel(8, 8, image::Rgba([40, 80, 120, 255])));
    let out = resize_srgb(uniform, 3, 5).unwrap().to_rgba8();
    assert_eq!(out.get_pixel(1, 2).0, [40, 80, 120, 255]);
}

#[test]
fn resample_wide_image() {
    let (w, h) = fit_long_edge(8000, 4000, 4000).unwrap();
    assert_eq!(w, 4000);
    assert_eq!(h, 2000);
}

#[test]
fn resample_tall_image() {
    let (w, h) = fit_long_edge(3000, 6000, 4000).unwrap();
    assert_eq!(h, 4000);
    assert_eq!(w, 2000);
}

#[test]
fn resize_srgb_gives_the_requested_size_for_any_non_empty_target() {
    let out = resize_srgb(make_test_image(40, 20), 7, 3).unwrap();
    assert_eq!(out.dimensions(), (7, 3));
    let same = resize_srgb(make_test_image(5, 5), 5, 5).unwrap();
    assert_eq!(same.dimensions(), (5, 5));
}

#[test]
fn add_square_border_centres_the_image() {
    let red = DynamicImage::ImageRgb8(ImageBuffer::from_pixel(2, 4, image::Rgb([255, 0, 0])));
    let out = add_square_border(red, 6, &BackgroundColor::White).to_rgba8();
    assert_eq!(out.get_pixel(0, 0).0, [255, 255, 255, 255]);
    assert_eq!(out.get_pixel(2, 1).0, [255, 0, 0, 255]);
    assert_eq!(out.get_pixel(3, 4).0, [255, 0, 0, 255]);
    assert_eq!(out.get_pixel(1, 1).0, [255, 255, 255, 255]);
    assert_eq!(out.get_pixel(4, 5).0, [255, 255, 255, 255]);
}

#[test]
fn quarter_turns_go_opposite_ways() {
    let img = DynamicImage::ImageRgb8(ImageBuffer::from_fn(2, 1, |x, _| image::Rgb([x as u8 * 200, 0, 0])));
    let cw = apply_manual_rotation(img.clone(), 90).to_rgb8();
    let ccw = apply_manual_rotation(img, 270).to_rgb8();
    assert_eq!(cw.get_pixel(0, 0).0, [0, 0, 0]);
    assert_eq!(ccw.get_pixel(0, 0).0, [200, 0, 0]);
}
