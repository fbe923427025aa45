use vstd::prelude::*;

use crate::config::{background_fill, background_rgb_spec, BackgroundColor};
use crate::error::AppError;
use crate::text::push_str;
use crate::imaging::{
    dims_of, flipped_h, flipped_v, fliph, flipv, image_dims, into_rgba8, overlaid, overlay, rgba8_of,
    rgba_fill, rgba_filled, rgba_size_fits, rotate180, rotate270, rotate90, rotated180, rotated270,
    rotated90,
};

verus! {

/// `a / b` rounded to the nearest integer, halves rounded up.
pub open spec fn round_div(a: int, b: int) -> int {
    (2 * a + b) / (2 * b)
}

/// Size of an image of `w` x `h` scaled so that its long edge is `max_size`,
/// keeping the aspect ratio (the short edge rounded, at least 1).
pub open spec fn fit_long_edge_spec(w: int, h: int, max_size: int) -> (int, int) {
    if w >= h {
        let nh = round_div(max_size * h, w);
        (max_size, if nh < 1 { 1 } else { nh })
    } else {
        let nw = round_div(max_size * w, h);
        (if nw < 1 { 1 } else { nw }, max_size)
    }
}

/// Scales `w` x `h` so that the long edge becomes `max_size`, keeping the
/// aspect ratio; an error when any of the three is 0.
pub fn fit_long_edge(w: u32, h: u32, max_size: u32) -> (r: Result<(u32, u32), AppError>)
    ensures
        (w == 0 || h == 0 || max_size == 0) ==> (r matches Err(AppError::Processing(msg)) && msg@
            == "resize source and target dimensions must be greater than 0"@),
        (w > 0 && h > 0 && max_size > 0) ==> (r matches Ok(dims) && dims.0 as int
            == fit_long_edge_spec(w as int, h as int, max_size as int).0 && dims.1 as int
            == fit_long_edge_spec(w as int, h as int, max_size as int).1),
{
    if w == 0 || h == 0 || max_size == 0 {
        return Err(
            AppError::Processing(
                String::from_str("resize source and target dimensions must be greater than 0"),
            ),
        );
    }
    if w >= h {
        let nh = scaled_side(max_size, h, w);
        Ok((max_size, if nh < 1 { 1 } else { nh }))
    } else {
        let nw = scaled_side(max_size, w, h);
        Ok((if nw < 1 { 1 } else { nw }, max_size))
    }
}

/// Fitting keeps the long edge at `max_size` and the other edge within it.
pub proof fn law_fit_keeps_long_edge(w: int, h: int, max_size: int)
    requires
        w > 0,
        h > 0,
        max_size > 0,
    ensures
        fit_long_edge_spec(w, h, max_size).0 <= max_size,
        fit_long_edge_spec(w, h, max_size).1 <= max_size,
        fit_long_edge_spec(w, h, max_size).0 == max_size || fit_long_edge_spec(w, h, max_size).1
            == max_size,
        w >= h ==> fit_long_edge_spec(w, h, max_size).0 == max_size,
        h > w ==> fit_long_edge_spec(w, h, max_size).1 == max_size,
{
    if w >= h {
        assert(2 * (max_size * h) + w <= 2 * w * max_size + w) by (nonlinear_arith)
            requires
                h <= w,
                max_size > 0,
        ;
        assert((2 * (max_size * h) + w) / (2 * w) <= max_size) by (nonlinear_arith)
            requires
                2 * (max_size * h) + w <= 2 * w * max_size + w,
                w > 0,
                max_size > 0,
        ;
    } else {
        assert(2 * (max_size * w) + h <= 2 * h * max_size + h) by (nonlinear_arith)
            requires
                w < h,
                max_size > 0,
        ;
        assert((2 * (max_size * w) + h) / (2 * h) <= max_size) by (nonlinear_arith)
            requires
                2 * (max_size * w) + h <= 2 * h * max_size + h,
                h > 0,
                max_size > 0,
        ;
    }
}

/// `max_size * side / long` rounded to the nearest integer, for `side <= long`.
fn scaled_side(max_size: u32, side: u32, long: u32) -> (r: u32)
    requires
        0 < side <= long,
    ensures
        r == round_div(max_size * side, long as int),
        r == (2 * (max_size * side) + long) / (2 * long),
        r <= max_size,
{
    let m = max_size as u128;
    let sd = side as u128;
    proof {
        assert(m * sd <= 4294967295u128 * 4294967295u128) by (nonlinear_arith)
            requires
                m <= 4294967295u128,
                sd <= 4294967295u128,
        ;
    }
    let num = 2 * (m * sd) + long as u128;
    let den = 2 * (long as u128);
    let q = num / den;
    proof {
        assert(max_size * side <= max_size * long) by (nonlinear_arith)
            requires
                side <= long,
        ;
        assert(q <= max_size) by (nonlinear_arith)
            requires
                q == (2 * (max_size * side) + long) / (2 * long),
                max_size * side <= max_size * long,
                long > 0,
        ;
    }
    q as u32
}

/// Rejects a resize to an empty size.
pub fn validate_resize_target(width: u32, height: u32) -> (r: Result<(), AppError>)
    ensures
        (width == 0 || height == 0) ==> (r matches Err(AppError::Processing(msg)) && msg@
            == "resize target dimensions must be greater than 0"@),
        (width > 0 && height > 0) ==> r is Ok,
{
    if width == 0 || height == 0 {
        return Err(
            AppError::Processing(String::from_str("resize target dimensions must be greater than 0")),
        );
    }
    Ok(())
}

/// A rigid transform of an image.
#[derive(Debug, Clone, Copy, PartialEq, Eq, Structural)]
pub enum ImageTransform {
    Identity,
    FlipHorizontal,
    Rotate180,
    FlipVertical,
    FlipHorizontalThenRotate90,
    Rotate90,
    FlipHorizontalThenRotate270,
    Rotate270,
}

/// The transform swaps width and height.
pub open spec fn transform_swaps_axes(t: ImageTransform) -> bool {
    match t {
        ImageTransform::FlipHorizontalThenRotate90 | ImageTransform::Rotate90
        | ImageTransform::FlipHorizontalThenRotate270 | ImageTransform::Rotate270 => true,
        _ => false,
    }
}

/// Dimensions of an image of dimensions `dims` after transform `t`.
pub open spec fn transformed_dims(dims: (u32, u32), t: ImageTransform) -> (u32, u32) {
    if transform_swaps_axes(t) {
        (dims.1, dims.0)
    } else {
        dims
    }
}

/// The image that transform `t` makes of `img`: the mirror (if any) first,
/// then the clockwise rotation.
pub open spec fn transformed(img: image::DynamicImage, t: ImageTransform) -> image::DynamicImage {
    match t {
        ImageTransform::Identity => img,
        ImageTransform::FlipHorizontal => flipped_h(img),
        ImageTransform::Rotate180 => rotated180(img),
        ImageTransform::FlipVertical => flipped_v(img),
        ImageTransform::FlipHorizontalThenRotate90 => rotated90(flipped_h(img)),
        ImageTransform::Rotate90 => rotated90(img),
        ImageTransform::FlipHorizontalThenRotate270 => rotated270(flipped_h(img)),
        ImageTransform::Rotate270 => rotated270(img),
    }
}

/// Applies a rigid transform.
pub fn apply_transform(img: image::DynamicImage, t: ImageTransform) -> (r: image::DynamicImage)
    ensures
        r == transformed(img, t),
        image_dims(r) == transformed_dims(image_dims(img), t),
{
    match t {
        ImageTransform::Identity => img,
        ImageTransform::FlipHorizontal => fliph(&img),
        ImageTransform::Rotate180 => rotate180(&img),
        ImageTransform::FlipVertical => flipv(&img),
        ImageTransform::FlipHorizontalThenRotate90 => rotate90(&fliph(&img)),
        ImageTransform::Rotate90 => rotate90(&img),
        ImageTransform::FlipHorizontalThenRotate270 => rotate270(&fliph(&img)),
        ImageTransform::Rotate270 => rotate270(&img),
    }
}

/// The transform for a manual clockwise rotation: 90, 180 or 270 degrees;
/// any other value leaves the image as it is.
pub open spec fn manual_rotation_transform(degrees: u16) -> ImageTransform {
    if degrees == 90 {
        ImageTransform::Rotate90
    } else if degrees == 180 {
        ImageTransform::Rotate180
    } else if degrees == 270 {
        ImageTransform::Rotate270
    } else {
        ImageTransform::Identity
    }
}

/// Rotates an image clockwise by 90, 180 or 270 degrees; other angles leave
/// it unchanged.
pub fn apply_manual_rotation(img: image::DynamicImage, degrees: u16) -> (r: image::DynamicImage)
    ensures
        r == transformed(img, manual_rotation_transform(degrees)),
        image_dims(r) == transformed_dims(image_dims(img), manual_rotation_transform(degrees)),
{
    let t = if degrees == 90 {
        ImageTransform::Rotate90
    } else if degrees == 180 {
        ImageTransform::Rotate180
    } else if degrees == 270 {
        ImageTransform::Rotate270
    } else {
        ImageTransform::Identity
    };
    apply_transform(img, t)
}

/// Offset that centres a side of `inner` pixels in one of `outer` pixels (0
/// when it does not fit).
pub open spec fn centring_offset(outer: u32, inner: u32) -> i64 {
    (if outer >= inner {
        (outer - inner) / 2
    } else {
        0
    }) as i64
}

/// `img` in 8-bit RGBA, blended centred onto a `border_size` square of the
/// background colour.
pub open spec fn square_bordered(img: image::DynamicImage, border_size: u32, bg: BackgroundColor) -> image::DynamicImage {
    overlaid(
        rgba_fill(border_size, border_size, background_fill(bg)),
        rgba8_of(img),
        centring_offset(border_size, image_dims(img).0),
        centring_offset(border_size, image_dims(img).1),
    )
}

/// Centres an image on a square canvas of side `border_size` filled with the
/// background colour (an image larger than the canvas is clipped).
pub fn add_square_border(img: image::DynamicImage, border_size: u32, bg: &BackgroundColor) -> (r: image::DynamicImage)
    requires
        rgba_size_fits(image_dims(img).0 as int, image_dims(img).1 as int),
        rgba_size_fits(border_size as int, border_size as int),
    ensures
        r == square_bordered(img, border_size, *bg),
        image_dims(r) == (border_size, border_size),
{
    let (iw, ih) = dims_of(&img);
    let rgba = into_rgba8(img);
    let rgb = bg.to_rgb();
    let fill = [rgb[0], rgb[1], rgb[2], 255];
    assert(fill@ =~= background_fill(*bg));
    let mut canvas = rgba_filled(border_size, border_size, fill);
    let x_offset = border_size.saturating_sub(iw) / 2;
    let y_offset = border_size.saturating_sub(ih) / 2;
    overlay(&mut canvas, &rgba, x_offset as i64, y_offset as i64);
    canvas
}

/// Resizes an 8-bit RGBA image with `fast_image_resize::Resizer::resize`
/// (Lanczos3 convolution, alpha-aware) into a new
/// `fast_image_resize::images::Image` of `PixelType::U8x4`, then rebuilds an
/// `RgbaImage` with `ImageBuffer::from_raw`. Errors: the resizer's error text,
/// or `None` when the buffer does not fit the size. Claimed, as the source
/// shows for an 8-bit RGBA source (`rgba8_of` of some image): both pixel
/// types are `U8x4`, the default crop box is the whole source, and
/// `from_raw` gets exactly `width * height * 4` bytes, so it succeeds, with
/// the requested dimensions. The resampled pixel values are not stated: the
/// resizer picks CPU-specific code.
#[verifier::external_body]
fn lanczos3_resize_rgba8(src: &image::DynamicImage, width: u32, height: u32) -> (r: Result<
    image::DynamicImage,
    Option<String>,
>)
    requires
        exists|orig: image::DynamicImage| *src == rgba8_of(orig),
        rgba_size_fits(width as int, height as int),
    ensures
        r is Ok,
        r matches Ok(out) ==> image_dims(out) == (width, height),
{
    let mut dst = fast_image_resize::images::Image::new(width, height, fast_image_resize::PixelType::U8x4);
    let options = fast_image_resize::ResizeOptions::new()
        .resize_alg(fast_image_resize::ResizeAlg::Convolution(fast_image_resize::FilterType::Lanczos3))
        .use_alpha(true);
    fast_image_resize::Resizer::new().resize(src, &mut dst, &options).map_err(|e| Some(e.to_string()))?;
    match image::RgbaImage::from_raw(width, height, dst.into_vec()) {
        Some(buf) => Ok(image::DynamicImage::ImageRgba8(buf)),
        None => Err(None),
    }
}

/// Resizes an image in sRGB space to exactly `width` x `height` with a
/// Lanczos3 filter; an error for an empty target size or a failed resize.
pub fn resize_srgb(img: image::DynamicImage, width: u32, height: u32) -> (r: Result<image::DynamicImage, AppError>)
    requires
        rgba_size_fits(image_dims(img).0 as int, image_dims(img).1 as int),
        rgba_size_fits(width as int, height as int),
    ensures
        (width == 0 || height == 0) ==> (r matches Err(AppError::Processing(msg)) && msg@
            == "resize target dimensions must be greater than 0"@),
        (width > 0 && height > 0) ==> (r matches Ok(out) && image_dims(out) == (width, height)),
{
    match validate_resize_target(width, height) {
        Ok(_) => {},
        Err(e) => return Err(e),
    }
    let src = into_rgba8(img);
    assert(src == rgba8_of(img));
    match lanczos3_resize_rgba8(&src, width, height) {
        Ok(out) => Ok(out),
        Err(Some(detail)) => {
            let mut msg = String::from_str("high quality resize failed: ");
            push_str(&mut msg, detail.as_str());
            Err(AppError::Processing(msg))
        },
        Err(None) => Err(
            AppError::Processing(String::from_str("high quality resize produced invalid RGBA buffer")),
        ),
    }
}

} // verus!
