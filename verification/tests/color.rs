use image::{DynamicImage, GenericImageView, Rgba, RgbaImage};
use piclayout::color::{
    convert_to_target, load_target_profile, prepare_image_with_metadata, validate_rgb_profile,
    TargetColorProfile,
};
use piclayout::config::{RenderingIntent, TargetProfileMode};
use piclayout::error::AppError;

fn message(err: AppError) -> String {
    match err {
        AppError::Processing(m) => m,
        other => panic!("unexpected error {:?}", other),
    }
}

fn srgb_target() -> TargetColorProfile {
    load_target_profile(true, TargetProfileMode::Srgb, None).unwrap()
}

#[test]
fn loads_default_srgb_target_profile() {
    let target = srgb_target();
    assert!(target.enabled);
    assert!(target.is_srgb);
    let icc = target.icc.unwrap();
    assert!(icc.len() > 100);
    assert!(validate_rgb_profile(&icc, "target").is_ok());
}

#[test]
fn disabled_color_management_has_no_target() {
    let target = load_target_profile(false, TargetProfileMode::Custom, None).unwrap();
    assert!(!target.enabled && !target.is_srgb && target.icc.is_none());
}

#[test]
fn custom_target_needs_a_readable_rgb_profile() {
    assert_eq!(
        message(load_target_profile(true, TargetProfileMode::Custom, None).unwrap_err()),
        "请选择目标 ICC profile 文件"
    );
    let read_error = AppError::Processing("cannot read".into());
    assert_eq!(
        message(load_target_profile(true, TargetProfileMode::Custom, Some(Err(read_error))).unwrap_err()),
        "cannot read"
    );
    let err = message(load_target_profile(true, TargetProfileMode::Custom, Some(Ok(vec![1, 2, 3]))).unwrap_err());
    assert!(err.starts_with("目标 ICC profile 无法解析: "));
    let srgb = srgb_target().icc.unwrap();
    let custom = load_target_profile(true, TargetProfileMode::Custom, Some(Ok(srgb.clone()))).unwrap();
    assert!(custom.enabled && !custom.is_srgb);
    assert_eq!(custom.icc, Some(srgb));
}

#[test]
fn srgb_to_srgb_conversion_keeps_pixels() {
    let icc = lcms2::Profile::new_srgb().icc().unwrap();
    let img = DynamicImage::ImageRgba8(RgbaImage::from_pixel(2, 2, Rgba([10, 20, 30, 255])));

    let out = convert_to_target(img, &icc, &icc, RenderingIntent::Perceptual).unwrap();

    assert_eq!(out.to_rgba8().get_pixel(0, 0).0, [10, 20, 30, 255]);
}

#[test]
fn rejects_non_rgb_target_profile() {
    let curve = lcms2::ToneCurve::new(2.2);
    let gray = lcms2::Profile::new_gray(
        &lcms2::CIExyY {
            x: 0.3127,
            y: 0.3290,
            Y: 1.0,
        },
        &curve,
    )
    .unwrap();
    let icc = gray.icc().unwrap();

    let err = validate_rgb_profile(&icc, "目标 ICC profile").unwrap_err().to_string();

    assert!(err.contains("不是 RGB profile"));
    assert_eq!(
        message(validate_rgb_profile(&icc, "目标 ICC profile").unwrap_err()),
        "目标 ICC profile 不是 RGB profile，本版本不支持 CMYK/灰度输出"
    );
}

#[test]
fn conversion_names_the_failing_profile() {
    let icc = srgb_target().icc.unwrap();
    let img = || DynamicImage::ImageRgba8(RgbaImage::from_pixel(1, 1, Rgba([10, 20, 30, 255])));
    let err = message(convert_to_target(img(), &[0, 1], &icc, RenderingIntent::Perceptual).unwrap_err());
    assert!(err.starts_with("解析输入 ICC profile 失败: "));
    let err = message(convert_to_target(img(), &icc, &[0, 1], RenderingIntent::RelativeColorimetric).unwrap_err());
    assert!(err.starts_with("解析目标 ICC profile 失败: "));
}

#[test]
fn prepare_orients_and_skips_conversion_for_srgb() {
    let img = DynamicImage::ImageRgba8(RgbaImage::from_pixel(2, 3, Rgba([1, 2, 3, 255])));
    let (out, warnings) =
        prepare_image_with_metadata(img, Some(6), true, None, &srgb_target(), RenderingIntent::Perceptual).unwrap();
    assert_eq!(out.dimensions(), (3, 2));
    assert!(warnings.is_empty());
    assert_eq!(out.to_rgba8().get_pixel(0, 0).0, [1, 2, 3, 255]);
}

#[test]
fn prepare_rejects_broken_input_profiles() {
    let img = DynamicImage::ImageRgba8(RgbaImage::from_pixel(2, 2, Rgba([1, 2, 3, 255])));
    let err = message(
        prepare_image_with_metadata(img, None, true, Some(vec![9, 9, 9]), &srgb_target(), RenderingIntent::Perceptual)
            .unwrap_err(),
    );
    assert!(err.starts_with("输入 ICC profile 无法解析: "));
}

#[test]
fn prepare_without_colour_management_only_orients() {
    let img = DynamicImage::ImageRgba8(RgbaImage::from_pixel(2, 3, Rgba([1, 2, 3, 255])));
    let target = TargetColorProfile { enabled: false, icc: None, is_srgb: false };
    let (out, _) =
        prepare_image_with_metadata(img, Some(8), true, Some(vec![0]), &target, RenderingIntent::Perceptual).unwrap();
    assert_eq!(out.dimensions(), (3, 2));
    let target = TargetColorProfile { enabled: true, icc: None, is_srgb: true };
    let img = DynamicImage::ImageRgba8(RgbaImage::from_pixel(2, 3, Rgba([1, 2, 3, 255])));
    let err = message(prepare_image_with_metadata(img, None, true, None, &target, RenderingIntent::Perceptual).unwrap_err());
    assert_eq!(err, "目标 ICC profile 未初始化");
}

fn linear_srgb_profile() -> Vec<u8> {
    let white = lcms2::CIExyY { x: 0.3127, y: 0.3290, Y: 1.0 };
    let primaries = lcms2::CIExyYTRIPLE {
        Red: lcms2::CIExyY { x: 0.64, y: 0.33, Y: 1.0 },
        Green: lcms2::CIExyY { x: 0.30, y: 0.60, Y: 1.0 },
        Blue: lcms2::CIExyY { x: 0.15, y: 0.06, Y: 1.0 },
    };
    let linear = lcms2::ToneCurve::new(1.0);
    lcms2::Profile::new_rgb(&white, &primaries, &[&linear, &linear, &linear])
        .unwrap()
        .icc()
        .unwrap()
}

#[test]
fn conversion_to_a_linear_profile_changes_mid_tones() {
    let srgb = lcms2::Profile::new_srgb().icc().unwrap();
    let linear = linear_srgb_profile();
    assert!(validate_rgb_profile(&linear, "target").is_ok());
    let img = DynamicImage::ImageRgba8(RgbaImage::from_pixel(2, 2, Rgba([128, 128, 128, 255])));
    let out = convert_to_target(img, &srgb, &linear, RenderingIntent::RelativeColorimetric).unwrap().to_rgba8();
    let px = out.get_pixel(1, 1).0;
    assert!(px[0] < 100 && px[1] < 100 && px[2] < 100, "got {:?}", px);
    assert_eq!(px[3], 255);
}

#[test]
fn prepare_converts_between_different_profiles() {
    let linear = linear_srgb_profile();
    let target = load_target_profile(true, TargetProfileMode::Custom, Some(Ok(linear))).unwrap();
    let img = DynamicImage::ImageRgba8(RgbaImage::from_pixel(2, 2, Rgba([128, 128, 128, 255])));
    let (out, _) = prepare_image_with_metadata(img, None, true, None, &target, RenderingIntent::Perceptual).unwrap();
    let px = out.to_rgba8().get_pixel(0, 0).0;
    assert!(px[0] < 100, "got {:?}", px);
}
