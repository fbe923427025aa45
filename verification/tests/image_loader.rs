use std::path::Path;
use image::error::{LimitError, LimitErrorKind};
use image::ImageError;
use piclayout::error::AppError;
use piclayout::image_loader::{
    check_heic_file_size, decode_error_for, ensure_rgba_allocation_safe, heic_load_warnings,
    is_heif_extension, is_jpeg_extension, jpeg_load_warnings, map_decode_error,
    rgb16_samples_to_le_bytes, rgb8_to_rgba8, rgba16_samples_to_rgb_le_bytes,
};

#[test]
fn maps_decode_memory_limit_to_actionable_error() {
    let err = ImageError::Limits(LimitError::from_kind(LimitErrorKind::InsufficientMemory));

    let msg = map_decode_error("too-large.jpg", err).to_string();

    assert!(msg.contains("safety limit"));
    assert!(msg.contains("too-large.jpg"));
}

#[test]
fn other_decode_errors_pass_through() {
    let err = ImageError::Limits(LimitError::from_kind(LimitErrorKind::DimensionError));
    assert!(matches!(map_decode_error("x.png", err), AppError::Image(_)));
    let err = ImageError::Limits(LimitError::from_kind(LimitErrorKind::DimensionError));
    match decode_error_for("x.png", err, true) {
        AppError::Processing(m) => assert_eq!(
            m,
            "image decode memory exceeds the safety limit (about 2GB): x.png. Reduce tile/final size or image count."
        ),
        other => panic!("unexpected {:?}", other),
    }
}

#[test]
fn rejects_unsafe_rgba_allocation() {
    let err = ensure_rgba_allocation_safe(100_000, 100_000, "test")
        .unwrap_err()
        .to_string();

    assert!(err.contains("RGBA memory"));
}

#[test]
fn rgba_limit_message_matches_float_formatting() {
    assert!(ensure_rgba_allocation_safe(16384, 32768, "exact").is_ok());
    for (w, h) in [(100_000u32, 100_000u32), (69_632, 8192), (23_171, 23_171), (65_535, 65_535), (16_385, 32_768)] {
        let bytes = w as u64 * h as u64 * 4;
        let expected = format!(
            "label requires {:.2}GB RGBA memory, above the {:.2}GB safety limit",
            bytes as f64 / 1024.0 / 1024.0 / 1024.0,
            2.0f64
        );
        match ensure_rgba_allocation_safe(w, h, "label") {
            Err(AppError::Processing(m)) => assert_eq!(m, expected),
            other => panic!("unexpected {:?}", other),
        }
    }
}

#[test]
fn heic_size_message_matches_float_formatting() {
    assert!(check_heic_file_size(256 * 1024 * 1024, "a.heic").is_ok());
    for len in [256u64 * 1024 * 1024 + 1, 300 * 1024 * 1024 + 52_429, 268_488_704, 1 << 30] {
        let expected = format!(
            "HEIC file a.heic is {:.1}MB, above the {:.1}MB safety limit",
            len as f64 / (1024.0 * 1024.0),
            256.0f64
        );
        match check_heic_file_size(len, "a.heic") {
            Err(AppError::Processing(m)) => assert_eq!(m, expected),
            other => panic!("unexpected {:?}", other),
        }
    }
}

#[test]
fn heif_and_jpeg_extensions() {
    assert!(is_heif_extension("heic"));
    assert!(is_heif_extension("heif"));
    assert!(is_heif_extension("HEIC"));
    assert!(is_heif_extension("HEIF"));
    assert!(!is_heif_extension("jpg"));
    assert!(!is_heif_extension("png"));
    assert!(!is_heif_extension(""));
    assert!(is_jpeg_extension("JPG"));
    assert!(is_jpeg_extension("jpeg"));
    assert!(!is_jpeg_extension("jpe"));
}

#[test]
fn pixel_byte_conversions() {
    assert_eq!(rgb16_samples_to_le_bytes(&[0x0102, 0xA0B0]), vec![0x02, 0x01, 0xB0, 0xA0]);
    assert_eq!(
        rgba16_samples_to_rgb_le_bytes(&[1, 2, 3, 4, 0x0100, 0x0200, 0x0300, 0x0400]),
        vec![1, 0, 2, 0, 3, 0, 0, 1, 0, 2, 0, 3]
    );
    assert_eq!(rgb8_to_rgba8(&[1, 2, 3, 4, 5, 6]), vec![1, 2, 3, 255, 4, 5, 6, 255]);
}

#[test]
fn jpeg_warnings_name_what_is_missing() {
    assert!(jpeg_load_warnings(true, true).is_empty());
    assert_eq!(
        jpeg_load_warnings(false, false),
        vec![
            "no EXIF orientation in JPEG; auto-rotate disabled".to_string(),
            "no ICC profile in JPEG; processing as sRGB".to_string()
        ]
    );
    assert_eq!(jpeg_load_warnings(true, false), vec!["no ICC profile in JPEG; processing as sRGB".to_string()]);
}

#[test]
fn heic_warnings_follow_the_decode() {
    assert!(heic_load_warnings("p.heic", 8, false, false, true, false).is_empty());
    assert_eq!(
        heic_load_warnings("p.heic", 10, true, true, false, false),
        vec![
            "p.heic: 10-bit HDR HEIC tone-mapped to 8-bit SDR via Reinhard".to_string(),
            "p.heic: Ultra HDR gain map computed (ready for HDR output)".to_string(),
            "p.heic: no EXIF orientation found".to_string(),
            "p.heic: no ICC profile in HEIC; processing as sRGB".to_string(),
        ]
    );
    assert_eq!(
        heic_load_warnings("p.heic", 8, false, false, false, false),
        vec!["p.heic: no EXIF orientation found".to_string()]
    );
}

#[test]
fn error_messages_have_kind_prefixes() {
    assert_eq!(AppError::Processing("boom".into()).to_string(), "处理失败: boom");
    assert_eq!(AppError::NoImagesProcessed.to_string(), "没有成功处理任何图片");
    let io = AppError::Io(std::io::Error::new(std::io::ErrorKind::Other, "disk"));
    assert_eq!(io.to_string(), "IO 错误: disk");
    let img = AppError::Image(ImageError::Limits(LimitError::from_kind(LimitErrorKind::InsufficientMemory)));
    assert!(img.to_string().starts_with("图像处理错误: "));
}

fn is_heif_path(path: &Path) -> bool {
    match path.extension().and_then(|e| e.to_str()) {
        Some(ext) => is_heif_extension(ext),
        None => false,
    }
}

#[test]
fn heif_path_detected_by_extension() {
    assert!(is_heif_path(Path::new("photo.heic")));
    assert!(is_heif_path(Path::new("photo.heif")));
    assert!(is_heif_path(Path::new("PHOTO.HEIC")));
    assert!(is_heif_path(Path::new("photo.HEIF")));
    assert!(!is_heif_path(Path::new("photo.jpg")));
    assert!(!is_heif_path(Path::new("photo.png")));
    assert!(!is_heif_path(Path::new("photo")));
}
