use vstd::prelude::*;

use crate::error::AppError;

verus! {

/// Gain map pixels per side of an image block.
pub const GAIN_MAP_SCALE: u32 = 4;

/// The encoded value of a gain of 1 (log2 gain 0).
pub const NEUTRAL_GAIN_VALUE: u8 = 128;

/// `a / b` rounded up.
pub open spec fn ceil_div(a: int, b: int) -> int {
    (a + b - 1) / b
}

/// What checking the HDR and SDR buffers of a `width` x `height` image gives:
/// the gain map dimensions (a quarter of each side, rounded up), or the error.
pub open spec fn gain_map_dims_spec(hdr_len: int, sdr_len: int, width: int, height: int) -> Result<
    (int, int),
    Seq<char>,
> {
    let pixels = width * height;
    if pixels * 6 > usize::MAX {
        Err("HDR gain map size overflowed"@)
    } else if pixels * 4 > usize::MAX {
        Err("SDR gain map size overflowed"@)
    } else if hdr_len < pixels * 6 || sdr_len < pixels * 4 {
        Err("HDR/SDR buffers are smaller than their declared dimensions"@)
    } else {
        Ok((ceil_div(width, 4), ceil_div(height, 4)))
    }
}

/// Checks that an HDR buffer (RGB, 16 bits per sample) and an SDR buffer
/// (RGBA, 8 bits per sample) hold a `width` x `height` image, and gives the
/// dimensions of its gain map.
pub fn gain_map_dimensions(hdr_len: usize, sdr_len: usize, width: u32, height: u32) -> (r: Result<
    (u32, u32),
    AppError,
>)
    requires
        width * height <= usize::MAX,
    ensures
        match gain_map_dims_spec(hdr_len as int, sdr_len as int, width as int, height as int) {
            Ok((w, h)) => r matches Ok((a, b)) && a == w && b == h,
            Err(msg) => r matches Err(AppError::Processing(m)) && m@ == msg,
        },
{
    let pixels = width as usize * height as usize;
    let expected_hdr = match pixels.checked_mul(6) {
        Some(n) => n,
        None => return Err(AppError::Processing(String::from_str("HDR gain map size overflowed"))),
    };
    let expected_sdr = match pixels.checked_mul(4) {
        Some(n) => n,
        None => return Err(AppError::Processing(String::from_str("SDR gain map size overflowed"))),
    };
    if hdr_len < expected_hdr || sdr_len < expected_sdr {
        return Err(
            AppError::Processing(
                String::from_str("HDR/SDR buffers are smaller than their declared dimensions"),
            ),
        );
    }
    let w = width / GAIN_MAP_SCALE + if width % GAIN_MAP_SCALE == 0 { 0 } else { 1 };
    let h = height / GAIN_MAP_SCALE + if height % GAIN_MAP_SCALE == 0 { 0 } else { 1 };
    Ok((w, h))
}

/// The image pixels `(x_start, x_end, y_start, y_end)` (ends exclusive) that
/// gain map pixel `(map_x, map_y)` averages: a block of 4 x 4, cut at the
/// image edge.
pub open spec fn gain_block_spec(map_x: int, map_y: int, width: int, height: int) -> (int, int, int, int) {
    (
        4 * map_x,
        if 4 * map_x + 4 < width { 4 * map_x + 4 } else { width },
        4 * map_y,
        if 4 * map_y + 4 < height { 4 * map_y + 4 } else { height },
    )
}

/// The image block that one gain map pixel averages.
pub fn gain_map_block(map_x: u32, map_y: u32, width: u32, height: u32) -> (b: (u32, u32, u32, u32))
    requires
        map_x < ceil_div(width as int, 4),
        map_y < ceil_div(height as int, 4),
    ensures
        (b.0 as int, b.1 as int, b.2 as int, b.3 as int) == gain_block_spec(
            map_x as int,
            map_y as int,
            width as int,
            height as int,
        ),
        b.0 < b.1 <= width,
        b.2 < b.3 <= height,
{
    let x_start = map_x * GAIN_MAP_SCALE;
    let y_start = map_y * GAIN_MAP_SCALE;
    let x_end = if (width - x_start) > GAIN_MAP_SCALE { x_start + GAIN_MAP_SCALE } else { width };
    let y_end = if (height - y_start) > GAIN_MAP_SCALE { y_start + GAIN_MAP_SCALE } else { height };
    (x_start, x_end, y_start, y_end)
}

/// Every image pixel is averaged into the gain map: pixel `(x, y)` lies in
/// the block of gain map pixel `(x / 4, y / 4)`, which is inside the map.
pub proof fn law_gain_blocks_cover_image(x: int, y: int, width: int, height: int)
    requires
        0 <= x < width,
        0 <= y < height,
    ensures
        x / 4 < ceil_div(width, 4),
        y / 4 < ceil_div(height, 4),
        gain_block_spec(x / 4, y / 4, width, height).0 <= x < gain_block_spec(x / 4, y / 4, width, height).1,
        gain_block_spec(x / 4, y / 4, width, height).2 <= y < gain_block_spec(x / 4, y / 4, width, height).3,
{
}

} // verus!
