use image::{DynamicImage, Rgba, RgbaImage};
use piclayout::collage::ProcessedTile;
use piclayout::config::{ColorManagementConfig, ResolvedLayout, TargetProfileMode};
use piclayout::error::AppError;
use piclayout::pipeline::{
    check_working_set, collect_processed_images, estimate_rgba_bytes, resolve_layout, has_overlay, has_text_block, is_blank, output_file_name,
    processing_thread_count, validate_custom_profile_selected, validate_image_count,
    validate_layout_numbers, validate_prefix, validate_rotations, validate_text_block_basics,
    LayoutInputs, ProcessedImage, RotationEntry,
};
use piclayout::progress::FailedImage;

fn message(err: AppError) -> String {
    match err {
        AppError::Processing(m) => m,
        other => panic!("unexpected error {:?}", other),
    }
}

fn base_inputs() -> LayoutInputs {
    LayoutInputs {
        image_count: 1,
        final_size: 2100,
        layout: Some(ResolvedLayout {
            content_long_edge_px: 40,
            tile_size_px: 60,
            gap_x_px: 0,
            gap_y_px: 0,
        }),
        tile_border_configured: false,
        border_size: 60,
        dpi: 300,
        jpeg_quality: 95,
        explicit_outer_border_px: None,
    }
}

#[test]
fn expected_output_path_uses_watermarked_name_for_text_block() {
    let with_overlay = has_overlay(false, Some("caption"));
    assert!(with_overlay);
    assert_eq!(output_file_name("output", with_overlay), "output_collage_final_watermarked.jpg");
}

#[test]
fn output_name_without_overlay() {
    assert!(!has_overlay(false, None));
    assert!(!has_overlay(false, Some("  \n ")));
    assert!(has_overlay(true, None));
    assert_eq!(output_file_name("streamed", false), "streamed_collage_final.jpg");
    assert!(!has_text_block(Some("\t")));
    assert!(has_text_block(Some(" x ")));
    assert!(is_blank(" \u{3000}\n"));
}

#[test]
fn custom_outer_border_validation_overrides_dynamic_border() {
    let mut inputs = base_inputs();
    inputs.final_size = 80;
    inputs.explicit_outer_border_px = Some(10);

    assert!(validate_layout_numbers(&inputs).is_ok());
}

#[test]
fn dynamic_border_too_large_for_small_output() {
    let mut inputs = base_inputs();
    inputs.final_size = 80;
    // one column at 80 px: 1000 * 80 / 10000 = 8, doubled 16 < 80
    let checked = validate_layout_numbers(&inputs).unwrap();
    assert_eq!(checked.outer_border, 8);
    inputs.explicit_outer_border_px = Some(40);
    let err = message(validate_layout_numbers(&inputs).unwrap_err());
    assert_eq!(err, "final image size 80 px is too small; current image count requires more than 80 px");
}

#[test]
fn layout_numbers_report_each_problem() {
    let mut i = base_inputs();
    i.final_size = 0;
    assert_eq!(message(validate_layout_numbers(&i).unwrap_err()), "final image size must be greater than 0");

    let mut i = base_inputs();
    i.layout = None;
    assert_eq!(message(validate_layout_numbers(&i).unwrap_err()), "layout size calculation overflowed");

    let mut i = base_inputs();
    i.layout = Some(ResolvedLayout { content_long_edge_px: 40, tile_size_px: 0, gap_x_px: 0, gap_y_px: 0 });
    assert_eq!(message(validate_layout_numbers(&i).unwrap_err()), "tile size must be greater than 0");

    let mut i = base_inputs();
    i.layout = Some(ResolvedLayout { content_long_edge_px: 0, tile_size_px: 60, gap_x_px: 0, gap_y_px: 0 });
    assert_eq!(message(validate_layout_numbers(&i).unwrap_err()), "content long edge must be greater than 0");

    let mut i = base_inputs();
    i.border_size = 0;
    assert_eq!(
        message(validate_layout_numbers(&i).unwrap_err()),
        "legacy tile border size must be greater than 0"
    );
    i.tile_border_configured = true;
    assert!(validate_layout_numbers(&i).is_ok());

    let mut i = base_inputs();
    i.layout = Some(ResolvedLayout { content_long_edge_px: 61, tile_size_px: 60, gap_x_px: 0, gap_y_px: 0 });
    assert_eq!(
        message(validate_layout_numbers(&i).unwrap_err()),
        "resample size 61 px cannot exceed tile border size 60 px"
    );

    let mut i = base_inputs();
    i.final_size = 70_000;
    assert_eq!(
        message(validate_layout_numbers(&i).unwrap_err()),
        "final image size 70000 px exceeds JPEG limit 65535 px"
    );

    let mut i = base_inputs();
    i.dpi = 0;
    assert_eq!(message(validate_layout_numbers(&i).unwrap_err()), "DPI must be between 1 and 65535; got 0");
    i.dpi = 70_000;
    assert_eq!(message(validate_layout_numbers(&i).unwrap_err()), "DPI must be between 1 and 65535; got 70000");

    let mut i = base_inputs();
    i.jpeg_quality = 0;
    assert_eq!(
        message(validate_layout_numbers(&i).unwrap_err()),
        "JPEG quality must be between 1 and 100; got 0"
    );
    i.jpeg_quality = 101;
    assert_eq!(
        message(validate_layout_numbers(&i).unwrap_err()),
        "JPEG quality must be between 1 and 100; got 101"
    );

    let mut i = base_inputs();
    i.image_count = 4;
    i.layout = Some(ResolvedLayout { content_long_edge_px: 40, tile_size_px: 40_000, gap_x_px: 0, gap_y_px: 0 });
    assert_eq!(
        message(validate_layout_numbers(&i).unwrap_err()),
        "collage dimensions 80000x80000 px exceed JPEG limit 65535 px"
    );

    let mut i = base_inputs();
    i.explicit_outer_border_px = Some(u32::MAX);
    assert_eq!(message(validate_layout_numbers(&i).unwrap_err()), "outer border calculation overflowed");
}

#[test]
fn valid_layout_numbers_give_the_grid() {
    let mut i = base_inputs();
    i.image_count = 5;
    i.layout = Some(ResolvedLayout { content_long_edge_px: 40, tile_size_px: 60, gap_x_px: 4, gap_y_px: 6 });
    let c = validate_layout_numbers(&i).unwrap();
    assert_eq!((c.grid_cols, c.grid_rows), (3, 2));
    assert_eq!((c.collage_width, c.collage_height), (188, 126));
    // three columns at 2100 px: 900 * 2100 / 10000 = 189
    assert_eq!(c.outer_border, 189);
}

#[test]
fn image_count_limits() {
    let mut warnings = Vec::new();
    assert_eq!(message(validate_image_count(0, &mut warnings).unwrap_err()), "select at least one image");
    assert_eq!(
        message(validate_image_count(501, &mut warnings).unwrap_err()),
        "image count cannot exceed 500; got 501"
    );
    assert!(warnings.is_empty());
    assert!(validate_image_count(40, &mut warnings).is_ok());
    assert!(warnings.is_empty());
    assert!(validate_image_count(41, &mut warnings).is_ok());
    assert_eq!(warnings, vec!["41 images selected; high resolution settings may use substantial memory".to_string()]);
    assert!(validate_image_count(500, &mut warnings).is_ok());
    assert_eq!(warnings.len(), 2);
}

#[test]
fn rotations_must_be_right_angles_of_selected_images() {
    let ok = RotationEntry { path_display: "a.jpg".into(), degrees: 90, selected: true };
    let bad_angle = RotationEntry { path_display: "b.jpg".into(), degrees: 45, selected: true };
    let unselected = RotationEntry { path_display: "c.jpg".into(), degrees: 180, selected: false };
    assert!(validate_rotations(&[]).is_ok());
    assert!(validate_rotations(&[ok.clone()]).is_ok());
    assert_eq!(
        message(validate_rotations(&[ok.clone(), bad_angle.clone(), unselected.clone()]).unwrap_err()),
        "image rotation must be 0, 90, 180, or 270 degrees: b.jpg = 45"
    );
    assert_eq!(
        message(validate_rotations(&[unselected, bad_angle]).unwrap_err()),
        "rotation config contains an unselected image: c.jpg"
    );
}

#[test]
fn prefix_rules() {
    assert!(validate_prefix("output").is_ok());
    assert!(validate_prefix("my photos 2024").is_ok());
    assert_eq!(message(validate_prefix("   ").unwrap_err()), "output filename prefix cannot be empty");
    assert_eq!(
        message(validate_prefix(" out").unwrap_err()),
        "output filename prefix cannot contain leading or trailing whitespace"
    );
    assert_eq!(
        message(validate_prefix("out\n").unwrap_err()),
        "output filename prefix cannot contain leading or trailing whitespace"
    );
    for bad in ["a<b", "a>b", "a:b", "a\"b", "a/b", "a\\b", "a|b", "a?b", "a*b", "a\u{7}b", "a\u{85}b"] {
        assert_eq!(
            message(validate_prefix(bad).unwrap_err()),
            "output filename prefix contains illegal filename characters"
        );
    }
}

#[test]
fn text_block_basics() {
    assert!(validate_text_block_basics("caption", 400).is_ok());
    assert_eq!(message(validate_text_block_basics("   ", 400).unwrap_err()), "text block cannot be empty");
    assert_eq!(
        message(validate_text_block_basics("caption", 0).unwrap_err()),
        "text block font weight must be between 1 and 999"
    );
    assert_eq!(
        message(validate_text_block_basics("caption", 1000).unwrap_err()),
        "text block font weight must be between 1 and 999"
    );
    assert!(validate_text_block_basics("caption", 999).is_ok());
}

#[test]
fn thread_count_caps() {
    let big = Some(ResolvedLayout { content_long_edge_px: 3500, tile_size_px: 3600, gap_x_px: 0, gap_y_px: 0 });
    let small = Some(ResolvedLayout { content_long_edge_px: 40, tile_size_px: 60, gap_x_px: 0, gap_y_px: 0 });
    assert_eq!(processing_thread_count(16, small, 4000, 2), 8);
    assert_eq!(processing_thread_count(16, big, 40, 2), 4);
    assert_eq!(processing_thread_count(16, small, 40, 21), 4);
    assert_eq!(processing_thread_count(16, None, 4000, 2), 4);
    assert_eq!(processing_thread_count(16, None, 3499, 20), 8);
    assert_eq!(processing_thread_count(2, small, 40, 2), 2);
    assert_eq!(processing_thread_count(0, small, 40, 2), 1);
}

#[test]
fn custom_profile_needs_a_file() {
    let mut cm = ColorManagementConfig::default();
    assert!(validate_custom_profile_selected(&cm).is_ok());
    cm.target_profile = TargetProfileMode::Custom;
    assert_eq!(message(validate_custom_profile_selected(&cm).unwrap_err()), "select a target ICC profile file");
    cm.target_profile_path = Some("profile.icc".into());
    assert!(validate_custom_profile_selected(&cm).is_ok());
    cm.target_profile_path = None;
    cm.enabled = false;
    assert!(validate_custom_profile_selected(&cm).is_ok());
}

fn processed(missing_icc: bool, warnings: Vec<&str>, shade: u8) -> Result<ProcessedImage, FailedImage> {
    Ok(ProcessedImage {
        tile: ProcessedTile {
            image: DynamicImage::ImageRgba8(RgbaImage::from_pixel(1, 1, Rgba([shade, 0, 0, 255]))),
            x: shade as u32,
            y: 0,
        },
        warnings: warnings.into_iter().map(String::from).collect(),
        missing_icc,
    })
}

fn failed(path: &str) -> Result<ProcessedImage, FailedImage> {
    Err(FailedImage { path: path.into(), message: "decode failed".into() })
}

#[test]
fn collected_images_summarize_missing_icc_and_failures() {
    let results = vec![
        processed(true, vec!["first warning"], 1),
        failed("bad.jpg"),
        processed(true, vec![], 2),
        processed(false, vec!["second warning", "third warning"], 3),
    ];
    let collected = collect_processed_images(results, vec!["earlier".into()]).unwrap();
    let xs: Vec<u32> = collected.tiles.iter().map(|t| t.x).collect();
    assert_eq!(xs, vec![1, 2, 3]);
    assert_eq!(collected.failed_images, vec![FailedImage { path: "bad.jpg".into(), message: "decode failed".into() }]);
    assert_eq!(
        collected.warnings,
        vec![
            "earlier".to_string(),
            "first warning".to_string(),
            "second warning".to_string(),
            "third warning".to_string(),
            "2 张图片未包含 ICC profile，已按 sRGB 处理".to_string(),
            "1 image(s) failed; continued with 3 successfully processed image(s)".to_string(),
        ]
    );
}

#[test]
fn run_summarizes_missing_icc_warnings() {
    let results = vec![processed(true, vec![], 1), processed(true, vec![], 2)];
    let collected = collect_processed_images(results, vec![]).unwrap();
    let missing: Vec<&String> = collected.warnings.iter().filter(|w| w.contains("未包含 ICC profile")).collect();
    assert_eq!(missing.len(), 1);
    assert!(missing[0].starts_with("2 张图片"));
}

#[test]
fn no_processed_image_is_an_error() {
    let results = vec![failed("a.jpg"), failed("b.jpg")];
    assert!(matches!(collect_processed_images(results, vec![]), Err(AppError::NoImagesProcessed)));
    assert!(matches!(collect_processed_images(vec![], vec![]), Err(AppError::NoImagesProcessed)));
}

#[test]
fn every_image_is_counted_once() {
    let results = vec![processed(false, vec![], 1), failed("x.jpg"), processed(false, vec![], 2), failed("y.jpg")];
    let collected = collect_processed_images(results, vec![]).unwrap();
    assert_eq!(collected.tiles.len() + collected.failed_images.len(), 4);
    assert_eq!(
        collected.warnings,
        vec!["2 image(s) failed; continued with 2 successfully processed image(s)".to_string()]
    );
}

#[test]
fn working_set_estimate_adds_canvas_and_tiles() {
    assert_eq!(estimate_rgba_bytes(100, 50, 10, 3), 100 * 50 * 4 + 10 * 10 * 4 * 3);
    assert_eq!(estimate_rgba_bytes(0, 0, 1 << 30, u64::MAX), u64::MAX);
    assert_eq!(estimate_rgba_bytes(65535, 65535, 1 << 20, 1 << 30), u64::MAX);
}

#[test]
fn working_set_limits() {
    let gib = 1u64 << 30;
    let mut warnings = Vec::new();
    assert!(check_working_set(2 * gib, &mut warnings).is_ok());
    assert!(warnings.is_empty());
    assert!(check_working_set(3 * gib, &mut warnings).is_ok());
    assert_eq!(
        warnings,
        vec![format!(
            "estimated RGBA working set is {:.2}GB; processing will limit worker concurrency",
            3.0f64
        )]
    );
    let err = message(check_working_set(5 * gib + gib / 8, &mut warnings).unwrap_err());
    assert_eq!(
        err,
        format!(
            "estimated RGBA working set is {:.2}GB, above the {:.2}GB safety limit; reduce image count or size settings",
            5.125f64, 4.0f64
        )
    );
    assert_eq!(warnings.len(), 1);
}

#[test]
fn layout_is_put_together_from_its_parts() {
    assert_eq!(
        resolve_layout(Some(4000), None, 4200, Some(10), Some(20)),
        Some(ResolvedLayout { content_long_edge_px: 4000, tile_size_px: 4200, gap_x_px: 10, gap_y_px: 20 })
    );
    assert_eq!(
        resolve_layout(Some(4000), Some(Some(250)), 4200, Some(0), Some(0)),
        Some(ResolvedLayout { content_long_edge_px: 4000, tile_size_px: 4500, gap_x_px: 0, gap_y_px: 0 })
    );
    assert_eq!(resolve_layout(Some(4000), Some(None), 4200, Some(0), Some(0)), None);
    assert_eq!(resolve_layout(Some(u32::MAX), Some(Some(1)), 4200, Some(0), Some(0)), None);
    assert_eq!(resolve_layout(None, None, 4200, Some(0), Some(0)), None);
    assert_eq!(resolve_layout(Some(1), None, 4200, None, Some(0)), None);
}
