use image::{DynamicImage, GenericImageView, Rgba, RgbaImage};
use piclayout::border::{
    calculate_dynamic_border, calculate_dynamic_border_scaled, frame_with_border, resolve_outer_border,
};
use piclayout::config::BackgroundColor;

#[test]
fn dynamic_border_boundary_values() {
    assert_eq!(calculate_dynamic_border(10), 200);
    assert_eq!(calculate_dynamic_border(15), 200);
    assert_eq!(calculate_dynamic_border(2), 1000);
    assert_eq!(calculate_dynamic_border(1), 1000);
}

#[test]
fn dynamic_border_interpolation() {
    // cols=6 → 200 + 800*(10-6)/8 = 200 + 400 = 600
    assert_eq!(calculate_dynamic_border(6), 600);
    // cols=9 → 200 + 800*1/8 = 300
    assert_eq!(calculate_dynamic_border(9), 300);
}

#[test]
fn dynamic_outer_border_scales_with_final_size() {
    assert_eq!(resolve_outer_border(None, 2, 20_000), 2000);
    assert_eq!(resolve_outer_border(None, 10, 20_000), 400);
}

#[test]
fn explicit_outer_border_overrides_dynamic_border() {
    assert_eq!(resolve_outer_border(Some(10), 1, 80), 10);
    assert_eq!(resolve_outer_border(Some(0), 1, 1000), 0);
}

#[test]
fn dynamic_border_never_grows_with_more_columns() {
    for cols in 0..40u32 {
        assert!(calculate_dynamic_border(cols + 1) <= calculate_dynamic_border(cols));
    }
}

#[test]
fn scaled_border_rounds_down() {
    // 3 columns: 200 + 800 * 7 / 8 = 900 at 10000 px; 900 * 333 / 10000 = 29.97
    assert_eq!(calculate_dynamic_border(3), 900);
    assert_eq!(calculate_dynamic_border_scaled(3, 333), 29);
    assert_eq!(calculate_dynamic_border_scaled(3, 10_000), 900);
    assert_eq!(calculate_dynamic_border_scaled(0, 0), 0);
}

#[test]
fn frame_adds_the_border_on_every_side() {
    let img = DynamicImage::ImageRgba8(RgbaImage::from_pixel(5, 3, Rgba([10, 20, 30, 255])));
    let out = frame_with_border(img, 2, &BackgroundColor::Black);
    assert_eq!(out.dimensions(), (9, 7));
    let rgba = out.to_rgba8();
    assert_eq!(rgba.get_pixel(0, 0).0, [0, 0, 0, 255]);
    assert_eq!(rgba.get_pixel(2, 2).0, [10, 20, 30, 255]);
    assert_eq!(rgba.get_pixel(6, 4).0, [10, 20, 30, 255]);
    assert_eq!(rgba.get_pixel(7, 4).0, [0, 0, 0, 255]);
}
