use vstd::prelude::*;

use crate::config::{background_fill, BackgroundColor};
use crate::imaging::{
    dims_of, image_dims, into_rgba8, overlaid, overlay, rgba8_of, rgba_fill, rgba_filled, rgba_size_fits,
};

verus! {

/// Outer border, in pixels, for a collage with `grid_cols` columns at the
/// reference output size: 1000 px up to 2 columns, 200 px from 10 columns,
/// linearly interpolated (rounding down) in between.
pub open spec fn dynamic_border_spec(grid_cols: int) -> int {
    if grid_cols >= 10 {
        200
    } else if grid_cols <= 2 {
        1000
    } else {
        200 + (800 * (10 - grid_cols)) / 8
    }
}

/// Computes the outer border for a grid with `grid_cols` columns.
pub fn calculate_dynamic_border(grid_cols: u32) -> (border: u32)
    ensures
        border == dynamic_border_spec(grid_cols as int),
        200 <= border <= 1000,
{
    if grid_cols >= 10 {
        200
    } else if grid_cols <= 2 {
        1000
    } else {
        200 + (1000 - 200) * (10 - grid_cols) / 8
    }
}

/// Output long edge at which [`calculate_dynamic_border`] gives its values.
pub const REFERENCE_FINAL_SIZE: u32 = 10000;

/// The dynamic border for `grid_cols` columns scaled to an output whose long
/// edge is `final_size` (rounding down).
pub open spec fn scaled_border_spec(grid_cols: int, final_size: int) -> int {
    dynamic_border_spec(grid_cols) * final_size / 10000
}

/// The outer border for `grid_cols` columns, scaled from the reference output
/// size of 10000 px to `final_size`.
pub fn calculate_dynamic_border_scaled(grid_cols: u32, final_size: u32) -> (border: u32)
    ensures
        border == scaled_border_spec(grid_cols as int, final_size as int),
        border <= final_size / 10,
{
    let base = calculate_dynamic_border(grid_cols) as u64;
    proof {
        assert(base * final_size <= 1000 * final_size) by (nonlinear_arith)
            requires
                base <= 1000,
        ;
    }
    let scaled = base * final_size as u64 / 10000;
    proof {
        assert(scaled <= final_size / 10) by (nonlinear_arith)
            requires
                scaled == base * final_size / 10000,
                base * final_size <= 1000 * final_size,
        ;
    }
    scaled as u32
}

/// The outer border of the final image: the explicitly configured one, or
/// else the dynamic border for `grid_cols` columns scaled to `final_size`.
pub fn resolve_outer_border(explicit_outer_border_px: Option<u32>, grid_cols: u32, final_size: u32) -> (border: u32)
    ensures
        border == match explicit_outer_border_px {
            Some(px) => px as int,
            None => scaled_border_spec(grid_cols as int, final_size as int),
        },
{
    match explicit_outer_border_px {
        Some(px) => px,
        None => calculate_dynamic_border_scaled(grid_cols, final_size),
    }
}

/// More columns never give a wider dynamic border.
pub proof fn law_dynamic_border_non_increasing(a: u32, b: u32)
    requires
        a <= b,
    ensures
        dynamic_border_spec(b as int) <= dynamic_border_spec(a as int),
{
    if 2 < a && a < 10 && 2 < b && b < 10 {
        assert(800 * (10 - b) <= 800 * (10 - a)) by (nonlinear_arith)
            requires
                a <= b,
        ;
        assert((800 * (10 - b)) / 8 <= (800 * (10 - a)) / 8) by (nonlinear_arith)
            requires
                800 * (10 - b) <= 800 * (10 - a),
        ;
    }
}

/// `scaled` in 8-bit RGBA, blended at `(border_px, border_px)` onto a canvas
/// of the background colour that is `2 * border_px` wider and taller.
pub open spec fn framed(scaled: image::DynamicImage, border_px: u32, bg: BackgroundColor) -> image::DynamicImage {
    overlaid(
        rgba_fill(
            (image_dims(scaled).0 + 2 * border_px) as u32,
            (image_dims(scaled).1 + 2 * border_px) as u32,
            background_fill(bg),
        ),
        rgba8_of(scaled),
        border_px as i64,
        border_px as i64,
    )
}

/// Puts an already scaled image on a canvas of the background colour with an
/// outer border of `border_px` on every side.
pub fn frame_with_border(scaled: image::DynamicImage, border_px: u32, bg: &BackgroundColor) -> (r: image::DynamicImage)
    requires
        image_dims(scaled).0 + 2 * border_px <= u32::MAX,
        image_dims(scaled).1 + 2 * border_px <= u32::MAX,
        rgba_size_fits(image_dims(scaled).0 as int, image_dims(scaled).1 as int),
        rgba_size_fits(
            image_dims(scaled).0 + 2 * border_px,
            image_dims(scaled).1 + 2 * border_px,
        ),
    ensures
        r == framed(scaled, border_px, *bg),
        image_dims(r) == ((image_dims(scaled).0 + 2 * border_px) as u32, (image_dims(scaled).1 + 2
            * border_px) as u32),
{
    let (w, h) = dims_of(&scaled);
    let canvas_w = w + 2 * border_px;
    let canvas_h = h + 2 * border_px;
    let rgb = bg.to_rgb();
    let fill = [rgb[0], rgb[1], rgb[2], 255];
    assert(fill@ =~= background_fill(*bg));
    let mut canvas = rgba_filled(canvas_w, canvas_h, fill);
    let top = into_rgba8(scaled);
    overlay(&mut canvas, &top, border_px as i64, border_px as i64);
    canvas
}

} // verus!
