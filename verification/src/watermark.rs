use vstd::prelude::*;

use crate::error::AppError;

verus! {

/// The part of an overlay placed with its top-left corner at `(x, y)` that
/// falls on the canvas, as canvas coordinates `(start_x, start_y, end_x,
/// end_y)` (ends exclusive), or `None` when nothing of it is visible.
pub open spec fn overlay_region_spec(
    canvas_width: int,
    canvas_height: int,
    overlay_width: int,
    overlay_height: int,
    x: int,
    y: int,
) -> Option<(int, int, int, int)> {
    let start_x = if x > 0 { x } else { 0 };
    let start_y = if y > 0 { y } else { 0 };
    let end_x = if x + overlay_width < canvas_width { x + overlay_width } else { canvas_width };
    let end_y = if y + overlay_height < canvas_height { y + overlay_height } else { canvas_height };
    if start_x >= end_x || start_y >= end_y {
        None
    } else {
        Some((start_x, start_y, end_x, end_y))
    }
}

/// The visible part of an overlay on the canvas. Every canvas pixel of the
/// region lies on the canvas and maps to the overlay pixel `(tx - x, ty - y)`,
/// which lies on the overlay.
pub fn visible_overlay_region(
    canvas_width: u32,
    canvas_height: u32,
    overlay_width: u32,
    overlay_height: u32,
    x: i64,
    y: i64,
) -> (r: Option<(u32, u32, u32, u32)>)
    ensures
        match overlay_region_spec(
            canvas_width as int,
            canvas_height as int,
            overlay_width as int,
            overlay_height as int,
            x as int,
            y as int,
        ) {
            None => r is None,
            Some((sx, sy, ex, ey)) => r matches Some((a, b, c, d)) && a == sx && b == sy && c == ex
                && d == ey,
        },
        r matches Some((sx, sy, ex, ey)) ==> {
            &&& sx < ex <= canvas_width
            &&& sy < ey <= canvas_height
            &&& 0 <= sx - x
            &&& ex - x <= overlay_width
            &&& 0 <= sy - y
            &&& ey - y <= overlay_height
        },
{
    let xw = x as i128 + overlay_width as i128;
    let yh = y as i128 + overlay_height as i128;
    let start_x: i128 = if x > 0 { x as i128 } else { 0 };
    let start_y: i128 = if y > 0 { y as i128 } else { 0 };
    let end_x: i128 = if xw < canvas_width as i128 { xw } else { canvas_width as i128 };
    let end_y: i128 = if yh < canvas_height as i128 { yh } else { canvas_height as i128 };
    if start_x >= end_x || start_y >= end_y {
        return None;
    }
    Some((start_x as u32, start_y as u32, end_x as u32, end_y as u32))
}

/// The size of a rendered text block and where its glyphs start: the content
/// width plus whatever the glyphs stick out to the left, the glyph height plus
/// whatever they stick out above, and the padding (doubled, saturating) on
/// both; an error when a side does not fit in 32 bits.
pub open spec fn text_block_size_spec(content_width: int, min_x: int, min_y: int, max_y: int, padding: int) -> Result<
    (int, int, int, int),
    Seq<char>,
> {
    let left = if min_x < 0 { -min_x } else { 0 };
    let top = if min_y < 0 { -min_y } else { 0 };
    let text_height = if max_y - min_y + 1 > 1 { max_y - min_y + 1 } else { 1 };
    let pad2 = if 2 * padding > u32::MAX { u32::MAX as int } else { 2 * padding };
    if content_width + left > u32::MAX || content_width + left + pad2 > u32::MAX {
        Err("text block width calculation overflowed"@)
    } else if text_height + top > u32::MAX || text_height + top + pad2 > u32::MAX {
        Err("text block height calculation overflowed"@)
    } else {
        Ok((content_width + left + pad2, text_height + top + pad2, left, top))
    }
}

/// Sizes the block a text is drawn into from the glyph bounds.
pub fn text_block_size(content_width: u32, min_x: i32, min_y: i32, max_y: i32, padding: u32) -> (r: Result<
    (u32, u32, u32, u32),
    AppError,
>)
    requires
        min_y <= max_y,
        max_y - min_y < i32::MAX,
    ensures
        match text_block_size_spec(content_width as int, min_x as int, min_y as int, max_y as int, padding as int) {
            Ok((w, h, l, t)) => r matches Ok((a, b, c, d)) && a == w && b == h && c == l && d == t,
            Err(msg) => r matches Err(AppError::Processing(m)) && m@ == msg,
        },
{
    let left: u32 = if min_x < 0 { (-(min_x as i64)) as u32 } else { 0 };
    let top: u32 = if min_y < 0 { (-(min_y as i64)) as u32 } else { 0 };
    let span = max_y as i64 - min_y as i64 + 1;
    let text_height: u32 = if span > 1 { span as u32 } else { 1 };
    let pad2: u32 = if padding > u32::MAX / 2 { u32::MAX } else { padding * 2 };
    let width = match content_width.checked_add(left) {
        Some(w) => match w.checked_add(pad2) {
            Some(w2) => w2,
            None => return Err(AppError::Processing(String::from_str("text block width calculation overflowed"))),
        },
        None => return Err(AppError::Processing(String::from_str("text block width calculation overflowed"))),
    };
    let height = match text_height.checked_add(top) {
        Some(h) => match h.checked_add(pad2) {
            Some(h2) => h2,
            None => return Err(AppError::Processing(String::from_str("text block height calculation overflowed"))),
        },
        None => return Err(AppError::Processing(String::from_str("text block height calculation overflowed"))),
    };
    Ok((width, height, left, top))
}

} // verus!
