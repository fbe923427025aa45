use piclayout::config::{
    default_auto_orient, default_border_size, default_color_management_enabled, default_dpi,
    default_final_size, default_jpeg_quality, default_resample_size, default_text_background_rgba,
    default_text_font_family, default_text_font_weight, default_text_rgba, resolve_linear_light_resize,
    resolve_tile_size_px, BackgroundColor, ColorManagementConfig, OutputSettings, PositionReference,
    ProcessingMode, RenderingIntent, TargetProfileMode, TextAlign, TextFontStyle,
};

#[test]
fn tile_size_uses_legacy_border_size_when_tile_border_missing() {
    assert_eq!(resolve_tile_size_px(4000, None, 4200), Some(4200));
}

#[test]
fn tile_size_uses_explicit_tile_border_when_present() {
    assert_eq!(resolve_tile_size_px(4000, Some(250), 4200), Some(4500));
}

#[test]
fn tile_size_overflow_gives_none() {
    assert_eq!(resolve_tile_size_px(u32::MAX, Some(1), 4200), None);
    assert_eq!(resolve_tile_size_px(0, Some(u32::MAX / 2 + 1), 4200), None);
}

#[test]
fn processing_mode_defaults_and_linear_light() {
    assert_eq!(ProcessingMode::default(), ProcessingMode::StandardHighQuality);
    assert!(!ProcessingMode::StandardHighQuality.default_linear_light_resize());
    assert!(ProcessingMode::MaximumQuality.default_linear_light_resize());
    assert!(!ProcessingMode::FastPreview.default_linear_light_resize());
    assert!(resolve_linear_light_resize(None, ProcessingMode::MaximumQuality));
    assert!(!resolve_linear_light_resize(Some(false), ProcessingMode::MaximumQuality));
    assert!(resolve_linear_light_resize(Some(true), ProcessingMode::FastPreview));
}

#[test]
fn background_colours_have_fixed_components() {
    assert_eq!(BackgroundColor::default(), BackgroundColor::White);
    assert_eq!(BackgroundColor::White.to_rgba(), [255, 255, 255, 255]);
    assert_eq!(BackgroundColor::Black.to_rgb(), [0, 0, 0]);
    assert_eq!(BackgroundColor::Grey.to_rgb(), [128, 128, 128]);
    assert_eq!(BackgroundColor::Lightgrey.to_rgb(), [211, 211, 211]);
    assert_eq!(BackgroundColor::Beige.to_rgba(), [245, 245, 220, 255]);
    assert_eq!(BackgroundColor::Lightblue.to_rgb(), [173, 216, 230]);
    assert_eq!(BackgroundColor::Lightyellow.to_rgb(), [255, 255, 224]);
}

#[test]
fn defaults_match_the_documented_values() {
    assert_eq!(default_resample_size(), 4000);
    assert_eq!(default_border_size(), 4200);
    assert_eq!(default_final_size(), 10000);
    assert_eq!(default_dpi(), 300);
    assert_eq!(default_jpeg_quality(), 95);
    assert!(default_auto_orient());
    assert!(default_color_management_enabled());
    assert_eq!(default_text_font_family(), "sans-serif");
    assert_eq!(default_text_font_weight(), 400);
    assert_eq!(default_text_rgba(), [255, 255, 255, 255]);
    assert_eq!(default_text_background_rgba(), [0, 0, 0, 0]);
    assert_eq!(PositionReference::default(), PositionReference::Canvas);
    assert_eq!(TextFontStyle::default(), TextFontStyle::Normal);
    assert_eq!(TextAlign::default(), TextAlign::Left);
    assert_eq!(TargetProfileMode::default(), TargetProfileMode::Srgb);
    assert_eq!(RenderingIntent::default(), RenderingIntent::Perceptual);
    let output = OutputSettings::default();
    assert_eq!(output.jpeg_quality, 95);
    assert!(output.auto_orient);
    assert_eq!(output.linear_light_resize, None);
    let cm = ColorManagementConfig::default();
    assert!(cm.enabled);
    assert_eq!(cm.target_profile, TargetProfileMode::Srgb);
    assert!(cm.target_profile_path.is_none());
    assert_eq!(cm.rendering_intent, RenderingIntent::Perceptual);
}

#[test]
fn processing_mode_defaults_to_standard_high_quality() {
    let mode = ProcessingMode::default();
    assert_eq!(mode, ProcessingMode::StandardHighQuality);
    assert!(!resolve_linear_light_resize(None, mode));
}

#[test]
fn maximum_quality_enables_linear_light_by_default() {
    let mode = ProcessingMode::MaximumQuality;
    assert!(resolve_linear_light_resize(None, mode));
}

#[test]
fn linear_light_setting_overrides_processing_mode_default() {
    assert!(!resolve_linear_light_resize(Some(false), ProcessingMode::MaximumQuality));
}
