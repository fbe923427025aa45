use vstd::prelude::*;

verus! {

/// Declaration of `std::path::PathBuf`, carried opaquely in configurations.
#[verifier::external_type_specification]
#[verifier::external_body]
pub struct ExPathBuf(std::path::PathBuf);

/// Resolved pixel sizes of the collage layout.
#[derive(Debug, Clone, Copy, PartialEq, Eq, Structural)]
pub struct ResolvedLayout {
    pub content_long_edge_px: u32,
    pub tile_size_px: u32,
    pub gap_x_px: u32,
    pub gap_y_px: u32,
}

/// Colour of the canvas, tile backgrounds and borders.
#[derive(Debug, Clone, Copy, PartialEq, Eq, Structural)]
pub enum BackgroundColor {
    White,
    Black,
    Grey,
    Lightgrey,
    Beige,
    Lightblue,
    Lightyellow,
}

impl Default for BackgroundColor {
    fn default() -> (r: Self)
        ensures
            r == BackgroundColor::White,
    {
        BackgroundColor::White
    }
}

/// The RGB components of a background colour.
pub open spec fn background_rgb_spec(c: BackgroundColor) -> (u8, u8, u8) {
    match c {
        BackgroundColor::White => (255, 255, 255),
        BackgroundColor::Black => (0, 0, 0),
        BackgroundColor::Grey => (128, 128, 128),
        BackgroundColor::Lightgrey => (211, 211, 211),
        BackgroundColor::Beige => (245, 245, 220),
        BackgroundColor::Lightblue => (173, 216, 230),
        BackgroundColor::Lightyellow => (255, 255, 224),
    }
}

/// The opaque RGBA pixel of a background colour.
pub open spec fn background_fill(c: BackgroundColor) -> Seq<u8> {
    seq![background_rgb_spec(c).0, background_rgb_spec(c).1, background_rgb_spec(c).2, 255u8]
}

impl BackgroundColor {
    /// The colour as opaque RGBA components.
    pub fn to_rgba(&self) -> (rgba: [u8; 4])
        ensures
            rgba@ == seq![
                background_rgb_spec(*self).0,
                background_rgb_spec(*self).1,
                background_rgb_spec(*self).2,
                255u8,
            ],
    {
        let rgba: [u8; 4] = match self {
            BackgroundColor::White => [255, 255, 255, 255],
            BackgroundColor::Black => [0, 0, 0, 255],
            BackgroundColor::Grey => [128, 128, 128, 255],
            BackgroundColor::Lightgrey => [211, 211, 211, 255],
            BackgroundColor::Beige => [245, 245, 220, 255],
            BackgroundColor::Lightblue => [173, 216, 230, 255],
            BackgroundColor::Lightyellow => [255, 255, 224, 255],
        };
        assert(rgba@ =~= seq![rgba[0], rgba[1], rgba[2], rgba[3]]);
        rgba
    }

    /// The colour as RGB components (for images without alpha).
    pub fn to_rgb(&self) -> (rgb: [u8; 3])
        ensures
            rgb@ == seq![
                background_rgb_spec(*self).0,
                background_rgb_spec(*self).1,
                background_rgb_spec(*self).2,
            ],
    {
        let rgba = self.to_rgba();
        let rgb = [rgba[0], rgba[1], rgba[2]];
        assert(rgb@ =~= seq![rgb[0], rgb[1], rgb[2]]);
        rgb
    }
}

/// How much effort the pipeline spends on resampling.
#[derive(Debug, Clone, Copy, PartialEq, Eq, Structural)]
pub enum ProcessingMode {
    StandardHighQuality,
    MaximumQuality,
    FastPreview,
}

impl Default for ProcessingMode {
    fn default() -> (r: Self)
        ensures
            r == ProcessingMode::StandardHighQuality,
    {
        ProcessingMode::StandardHighQuality
    }
}

impl ProcessingMode {
    /// Whether the mode resizes in linear light when nothing else is configured:
    /// only in maximum quality.
    pub fn default_linear_light_resize(self) -> (r: bool)
        ensures
            r == (self == ProcessingMode::MaximumQuality),
    {
        match self {
            ProcessingMode::MaximumQuality => true,
            _ => false,
        }
    }
}

/// Whether resizing happens in linear light: the explicit setting when there
/// is one, else the default of the processing mode.
pub fn resolve_linear_light_resize(setting: Option<bool>, mode: ProcessingMode) -> (r: bool)
    ensures
        r == match setting {
            Some(b) => b,
            None => mode == ProcessingMode::MaximumQuality,
        },
{
    match setting {
        Some(b) => b,
        None => mode.default_linear_light_resize(),
    }
}

/// What an overlay position is relative to.
#[derive(Debug, Clone, Copy, PartialEq, Eq, Structural)]
pub enum PositionReference {
    Canvas,
    Content,
}

impl Default for PositionReference {
    fn default() -> (r: Self)
        ensures
            r == PositionReference::Canvas,
    {
        PositionReference::Canvas
    }
}

/// Style of the text-block font.
#[derive(Debug, Clone, Copy, PartialEq, Eq, Structural)]
pub enum TextFontStyle {
    Normal,
    Italic,
    Oblique,
}

impl Default for TextFontStyle {
    fn default() -> (r: Self)
        ensures
            r == TextFontStyle::Normal,
    {
        TextFontStyle::Normal
    }
}

/// Horizontal alignment of the text-block lines.
#[derive(Debug, Clone, Copy, PartialEq, Eq, Structural)]
pub enum TextAlign {
    Left,
    Center,
    Right,
}

impl Default for TextAlign {
    fn default() -> (r: Self)
        ensures
            r == TextAlign::Left,
    {
        TextAlign::Left
    }
}

/// Which ICC profile the output is converted to.
#[derive(Debug, Clone, Copy, PartialEq, Eq, Structural)]
pub enum TargetProfileMode {
    Srgb,
    Custom,
}

impl Default for TargetProfileMode {
    fn default() -> (r: Self)
        ensures
            r == TargetProfileMode::Srgb,
    {
        TargetProfileMode::Srgb
    }
}

/// Rendering intent of the colour conversion.
#[derive(Debug, Clone, Copy, PartialEq, Eq, Structural)]
pub enum RenderingIntent {
    Perceptual,
    RelativeColorimetric,
}

impl Default for RenderingIntent {
    fn default() -> (r: Self)
        ensures
            r == RenderingIntent::Perceptual,
    {
        RenderingIntent::Perceptual
    }
}

/// JPEG encoding and orientation settings.
#[derive(Debug)]
pub struct OutputSettings {
    pub jpeg_quality: u8,
    pub auto_orient: bool,
    pub linear_light_resize: Option<bool>,
}

impl Default for OutputSettings {
    fn default() -> (r: Self)
        ensures
            r.jpeg_quality == 95,
            r.auto_orient,
            r.linear_light_resize is None,
    {
        OutputSettings {
            jpeg_quality: default_jpeg_quality(),
            auto_orient: default_auto_orient(),
            linear_light_resize: None,
        }
    }
}

/// Colour-management settings.
#[derive(Debug)]
pub struct ColorManagementConfig {
    pub enabled: bool,
    pub target_profile: TargetProfileMode,
    pub target_profile_path: Option<std::path::PathBuf>,
    pub rendering_intent: RenderingIntent,
}

impl Default for ColorManagementConfig {
    fn default() -> (r: Self)
        ensures
            r.enabled,
            r.target_profile == TargetProfileMode::Srgb,
            r.target_profile_path is None,
            r.rendering_intent == RenderingIntent::Perceptual,
    {
        ColorManagementConfig {
            enabled: default_color_management_enabled(),
            target_profile: TargetProfileMode::Srgb,
            target_profile_path: None,
            rendering_intent: RenderingIntent::Perceptual,
        }
    }
}

/// Tile size: content long edge plus twice the explicit tile border when one
/// is given (`None` when that overflows), else the legacy square tile size.
pub fn resolve_tile_size_px(content_long_edge_px: u32, tile_border_px: Option<u32>, legacy_border_size: u32) -> (r: Option<u32>)
    ensures
        r == match tile_border_px {
            Some(b) => if content_long_edge_px + 2 * b <= u32::MAX {
                Some((content_long_edge_px + 2 * b) as u32)
            } else {
                None
            },
            None => Some(legacy_border_size),
        },
{
    match tile_border_px {
        Some(border_px) => match border_px.checked_mul(2) {
            Some(padding) => content_long_edge_px.checked_add(padding),
            None => None,
        },
        None => Some(legacy_border_size),
    }
}

/// Default content long edge, in pixels.
pub fn default_resample_size() -> (r: u32)
    ensures
        r == 4000,
{
    4000
}

/// Default legacy tile size, in pixels.
pub fn default_border_size() -> (r: u32)
    ensures
        r == 4200,
{
    4200
}

/// Default long edge of the final image, in pixels.
pub fn default_final_size() -> (r: u32)
    ensures
        r == 10000,
{
    10000
}

/// Default output resolution, in dots per inch.
pub fn default_dpi() -> (r: u32)
    ensures
        r == 300,
{
    300
}

/// Default text-block font family.
pub fn default_text_font_family() -> (r: String)
    ensures
        r@ == "sans-serif"@,
{
    String::from_str("sans-serif")
}

/// Default text-block font weight.
pub fn default_text_font_weight() -> (r: u16)
    ensures
        r == 400,
{
    400
}

/// Default text colour: opaque white.
pub fn default_text_rgba() -> (r: [u8; 4])
    ensures
        r@ == seq![255u8, 255, 255, 255],
{
    let r: [u8; 4] = [255, 255, 255, 255];
    assert(r@ =~= seq![255u8, 255, 255, 255]);
    r
}

/// Default text-block background: fully transparent.
pub fn default_text_background_rgba() -> (r: [u8; 4])
    ensures
        r@ == seq![0u8, 0, 0, 0],
{
    let r: [u8; 4] = [0, 0, 0, 0];
    assert(r@ =~= seq![0u8, 0, 0, 0]);
    r
}

/// Default JPEG quality.
pub fn default_jpeg_quality() -> (r: u8)
    ensures
        r == 95,
{
    95
}

/// Images are rotated by their EXIF orientation by default.
pub fn default_auto_orient() -> (r: bool)
    ensures
        r,
{
    true
}

/// Colour management is on by default.
pub fn default_color_management_enabled() -> (r: bool)
    ensures
        r,
{
    true
}

} // verus!
